//! A game-result oracle secured by staking and slashing.
//!
//! Developers stake to register and stake again on every result they submit. A result
//! can be challenged, against a stake, until its dispute deadline; after it, the result
//! is final and its stake returns. Governance settles disputes: the loser's stake goes
//! to the winner. Queries pay a fee, of which the provider's share accrues to the
//! developer as revenue.

use vstd::prelude::*;
use crate::assoc_map::AssocMap;
use crate::battlechain;
use crate::dispatch::{
    account_of,
    derive_id,
    derived_seed,
    ensure_root,
    ensure_signed,
    hash_seed,
    id_of,
    pallet_account,
    push_hash,
    signer,
    DispatchError,
    HashId,
    Origin,
    Transfer,
};
use crate::encoding::{
    compact_len,
    encode_bytes,
    encode_option_u64,
    encode_u32,
    encode_u64,
    le_bytes,
    option_u64_bytes,
};
use crate::per_thing::{
    mul_floor_parts,
    perbill_from_rational,
    perbill_mul_floor,
    rational_parts,
    PERBILL_ACCURACY,
};

verus! {

/// Developer registration status.
#[derive(Clone, Copy, Debug, PartialEq, Eq)]
pub enum DeveloperStatus {
    /// Awaiting verification.
    Pending,
    /// Active and can submit results.
    Verified,
    /// Temporarily disabled.
    Suspended,
    /// Penalized for fraud.
    Slashed,
}

impl DeveloperStatus {
    pub open spec fn code(self) -> u8 {
        match self {
            DeveloperStatus::Pending => 0,
            DeveloperStatus::Verified => 1,
            DeveloperStatus::Suspended => 2,
            DeveloperStatus::Slashed => 3,
        }
    }

    pub open spec fn of_code(value: u8) -> Result<DeveloperStatus, ()> {
        if value == 0 {
            Ok(DeveloperStatus::Pending)
        } else if value == 1 {
            Ok(DeveloperStatus::Verified)
        } else if value == 2 {
            Ok(DeveloperStatus::Suspended)
        } else if value == 3 {
            Ok(DeveloperStatus::Slashed)
        } else {
            Err(())
        }
    }

    pub fn to_u8(&self) -> (r: u8)
        ensures
            r == self.code(),
    {
        match self {
            DeveloperStatus::Pending => 0,
            DeveloperStatus::Verified => 1,
            DeveloperStatus::Suspended => 2,
            DeveloperStatus::Slashed => 3,
        }
    }

    pub fn from_u8(value: u8) -> (r: Result<DeveloperStatus, ()>)
        ensures
            r == DeveloperStatus::of_code(value),
    {
        match value {
            0 => Ok(DeveloperStatus::Pending),
            1 => Ok(DeveloperStatus::Verified),
            2 => Ok(DeveloperStatus::Suspended),
            3 => Ok(DeveloperStatus::Slashed),
            _ => Err(()),
        }
    }
}

/// Result verification status.
#[derive(Clone, Copy, Debug, PartialEq, Eq)]
pub enum ResultStatus {
    /// Waiting for the dispute period to pass.
    Submitted,
    /// The dispute period passed, or a dispute was settled for the developer.
    Verified,
    /// Under challenge.
    Disputed,
    /// A challenge won and the developer was penalized.
    Slashed,
}

impl ResultStatus {
    pub open spec fn code(self) -> u8 {
        match self {
            ResultStatus::Submitted => 0,
            ResultStatus::Verified => 1,
            ResultStatus::Disputed => 2,
            ResultStatus::Slashed => 3,
        }
    }

    pub open spec fn of_code(value: u8) -> Result<ResultStatus, ()> {
        if value == 0 {
            Ok(ResultStatus::Submitted)
        } else if value == 1 {
            Ok(ResultStatus::Verified)
        } else if value == 2 {
            Ok(ResultStatus::Disputed)
        } else if value == 3 {
            Ok(ResultStatus::Slashed)
        } else {
            Err(())
        }
    }

    pub fn to_u8(&self) -> (r: u8)
        ensures
            r == self.code(),
    {
        match self {
            ResultStatus::Submitted => 0,
            ResultStatus::Verified => 1,
            ResultStatus::Disputed => 2,
            ResultStatus::Slashed => 3,
        }
    }

    pub fn from_u8(value: u8) -> (r: Result<ResultStatus, ()>)
        ensures
            r == ResultStatus::of_code(value),
    {
        match value {
            0 => Ok(ResultStatus::Submitted),
            1 => Ok(ResultStatus::Verified),
            2 => Ok(ResultStatus::Disputed),
            3 => Ok(ResultStatus::Slashed),
            _ => Err(()),
        }
    }
}

/// How a dispute was settled.
#[derive(Clone, Copy, Debug, PartialEq, Eq)]
pub enum DisputeOutcome {
    Pending,
    /// The developer keeps the stake; the challenger loses theirs.
    DeveloperWins,
    /// The developer is slashed; the challenger gets the stakes.
    ChallengerWins,
}

impl DisputeOutcome {
    pub open spec fn code(self) -> u8 {
        match self {
            DisputeOutcome::Pending => 0,
            DisputeOutcome::DeveloperWins => 1,
            DisputeOutcome::ChallengerWins => 2,
        }
    }

    pub open spec fn of_code(value: u8) -> Result<DisputeOutcome, ()> {
        if value == 0 {
            Ok(DisputeOutcome::Pending)
        } else if value == 1 {
            Ok(DisputeOutcome::DeveloperWins)
        } else if value == 2 {
            Ok(DisputeOutcome::ChallengerWins)
        } else {
            Err(())
        }
    }

    pub fn to_u8(&self) -> (r: u8)
        ensures
            r == self.code(),
    {
        match self {
            DisputeOutcome::Pending => 0,
            DisputeOutcome::DeveloperWins => 1,
            DisputeOutcome::ChallengerWins => 2,
        }
    }

    pub fn from_u8(value: u8) -> (r: Result<DisputeOutcome, ()>)
        ensures
            r == DisputeOutcome::of_code(value),
    {
        match value {
            0 => Ok(DisputeOutcome::Pending),
            1 => Ok(DisputeOutcome::DeveloperWins),
            2 => Ok(DisputeOutcome::ChallengerWins),
            _ => Err(()),
        }
    }
}

/// Each status code decodes back to its status, and exactly the codes of statuses decode.
/// The codes number the variants in the order they are declared, from 0.
pub proof fn lemma_status_codes_round_trip(
    d: DeveloperStatus,
    r: ResultStatus,
    o: DisputeOutcome,
    value: u8,
)
    ensures
        DeveloperStatus::of_code(d.code()) == Ok::<DeveloperStatus, ()>(d),
        ResultStatus::of_code(r.code()) == Ok::<ResultStatus, ()>(r),
        DisputeOutcome::of_code(o.code()) == Ok::<DisputeOutcome, ()>(o),
        DeveloperStatus::of_code(value) is Ok <==> value < 4,
        ResultStatus::of_code(value) is Ok <==> value < 4,
        DisputeOutcome::of_code(value) is Ok <==> value < 3,
        DeveloperStatus::of_code(value) matches Ok(s) ==> s.code() == value,
        ResultStatus::of_code(value) matches Ok(s) ==> s.code() == value,
        DisputeOutcome::of_code(value) matches Ok(s) ==> s.code() == value,
        seq![
            DeveloperStatus::Pending,
            DeveloperStatus::Verified,
            DeveloperStatus::Suspended,
            DeveloperStatus::Slashed,
        ][d.code() as int] == d,
        seq![
            ResultStatus::Submitted,
            ResultStatus::Verified,
            ResultStatus::Disputed,
            ResultStatus::Slashed,
        ][r.code() as int] == r,
        seq![
            DisputeOutcome::Pending,
            DisputeOutcome::DeveloperWins,
            DisputeOutcome::ChallengerWins,
        ][o.code() as int] == o,
{
}

/// Standardized game result format.
#[derive(Clone, Debug, PartialEq, Eq)]
pub struct StandardizedResult {
    pub battle_id: HashId,
    pub winner: Option<u64>,
    pub player1: u64,
    pub player2: u64,
    pub player1_score: u32,
    pub player2_score: u32,
    pub rounds_played: u8,
    pub timestamp: u64,
    /// At most 32 bytes.
    pub game_name: Vec<u8>,
    pub game_version: u32,
    /// At most 256 bytes of custom data.
    pub extension_data: Vec<u8>,
}

/// Developer profile with staking.
#[derive(Clone, Debug, PartialEq, Eq)]
pub struct DeveloperProfile {
    pub developer: u64,
    /// At most 64 bytes.
    pub game_name: Vec<u8>,
    pub status: DeveloperStatus,
    /// 0-10000 basis points.
    pub reputation_score: u32,
    /// Total stake locked.
    pub staked_amount: u128,
    pub total_submissions: u64,
    /// Disputes settled in the developer's favour.
    pub successful_disputes: u32,
    /// Disputes settled against the developer.
    pub failed_disputes: u32,
    pub total_revenue: u128,
    pub registered_at: u64,
}

/// Game result with staking.
#[derive(Clone, Debug, PartialEq, Eq)]
pub struct GameResult {
    pub result_id: HashId,
    pub developer: u64,
    pub result_data: StandardizedResult,
    /// Hash of the encoded result data.
    pub data_hash: HashId,
    /// Stake locked for this result.
    pub stake_amount: u128,
    pub status: ResultStatus,
    pub query_count: u64,
    pub revenue_earned: u128,
    pub submitted_at: u64,
    /// The block at which the dispute period ends.
    pub dispute_deadline: u64,
}

/// Dispute record with staking.
#[derive(Clone, Debug, PartialEq, Eq)]
pub struct Dispute {
    pub dispute_id: HashId,
    pub result_id: HashId,
    pub challenger: u64,
    pub challenger_stake: u128,
    /// At most 512 bytes.
    pub reason: Vec<u8>,
    pub evidence_hash: HashId,
    pub outcome: DisputeOutcome,
    pub resolved_at: Option<u64>,
    pub created_at: u64,
}

/// The pallet's parameters.
#[derive(Clone, Copy, Debug, PartialEq, Eq)]
pub struct Config {
    /// Identifies the account that holds the pallet's funds.
    pub pallet_id: [u8; 8],
    /// The provider's share of a query fee, in basis points (7000 = 70%).
    pub provider_rev_share_bps: u16,
    pub query_fee: u128,
    pub developer_stake: u128,
    pub result_stake: u128,
    /// Blocks during which a result can be disputed.
    pub dispute_period: u64,
    /// A challenger's stake; meant to be at least `result_stake`, which nothing checks.
    pub dispute_stake: u128,
}

/// What the pallet reports.
#[derive(Clone, Debug, PartialEq, Eq)]
pub enum Event {
    DeveloperRegistered { developer: u64, game_name: Vec<u8>, stake: u128 },
    DeveloperVerified { developer: u64 },
    ResultSubmitted { result_id: HashId, developer: u64, battle_id: HashId, stake: u128 },
    ResultVerified { result_id: HashId },
    DataQueried { result_id: HashId, querier: u64, fee: u128, developer_revenue: u128 },
    DisputeCreated { dispute_id: HashId, result_id: HashId, challenger: u64, stake: u128 },
    DisputeResolved { dispute_id: HashId, outcome_id: u8, slashed_amount: u128 },
    DeveloperSlashed { developer: u64, result_id: HashId, amount: u128 },
    RevenueClaimed { developer: u64, amount: u128 },
}

/// Errors of the pallet.
#[derive(Clone, Copy, Debug, PartialEq, Eq)]
pub enum Error {
    DeveloperAlreadyRegistered,
    DeveloperNotFound,
    DeveloperNotVerified,
    DeveloperSlashed,
    ResultNotFound,
    ResultAlreadyExists,
    BattleNotFound,
    InsufficientStake,
    DisputeAlreadyExists,
    DisputeNotFound,
    DisputePeriodNotEnded,
    DisputePeriodEnded,
    NoRevenueToClaim,
    InvalidGameName,
    ResultStillDisputed,
    UnauthorizedResolver,
    /// The dispute has already been settled.
    DisputeAlreadyResolved,
}

/// Longest game name of a developer.
pub const MAX_PROFILE_NAME: usize = 64usize;

/// Longest game name of a result.
pub const MAX_RESULT_NAME: usize = 32usize;

/// Longest extension data of a result.
pub const MAX_EXTENSION: usize = 256usize;

/// Longest reason of a dispute.
pub const MAX_REASON: usize = 512usize;

/// Basis points in a whole.
pub const BPS_WHOLE: u128 = 10000u128;

/// The SCALE encoding of a standardized result: its fields' encodings in order.
pub open spec fn result_bytes(r: StandardizedResult) -> Seq<u8> {
    r.battle_id@ + option_u64_bytes(r.winner) + le_bytes(r.player1 as nat, 8) + le_bytes(
        r.player2 as nat,
        8,
    ) + le_bytes(r.player1_score as nat, 4) + le_bytes(r.player2_score as nat, 4) + seq![
        r.rounds_played,
    ] + le_bytes(r.timestamp as nat, 8) + compact_len(r.game_name@.len()) + r.game_name@
        + le_bytes(r.game_version as nat, 4) + compact_len(r.extension_data@.len())
        + r.extension_data@
}

/// The provider's share of a query fee: the fee times `bps / 10000` as a `Perbill`,
/// rounded down.
pub open spec fn provider_revenue(config: Config) -> u128 {
    mul_floor_parts(
        rational_parts(config.provider_rev_share_bps as nat, BPS_WHOLE as nat, PERBILL_ACCURACY as nat),
        PERBILL_ACCURACY as nat,
        config.query_fee as nat,
    ) as u128
}

/// The transfer that registering the signer as a developer asks for, or why it fails.
pub open spec fn register_plan(s: OracleView, origin: Origin, game_name: Seq<u8>) -> Result<
    Transfer,
    DispatchError<Error>,
> {
    match signer(origin) {
        None => Err(DispatchError::BadOrigin),
        Some(who) => if s.developers.contains_key(who) {
            Err(DispatchError::Pallet(Error::DeveloperAlreadyRegistered))
        } else if game_name.len() == 0 {
            Err(DispatchError::Pallet(Error::InvalidGameName))
        } else {
            Ok(
                Transfer {
                    from: who,
                    to: account_of(s.config.pallet_id),
                    amount: s.config.developer_stake,
                    keep_alive: true,
                },
            )
        },
    }
}

/// The transfer that submitting a result for battle `battle_id` asks for, or why it fails.
pub open spec fn submit_plan(
    s: OracleView,
    battles: Map<HashId, battlechain::Battle>,
    origin: Origin,
    battle_id: HashId,
) -> Result<Transfer, DispatchError<Error>> {
    match signer(origin) {
        None => Err(DispatchError::BadOrigin),
        Some(who) => if !s.developers.contains_key(who) {
            Err(DispatchError::Pallet(Error::DeveloperNotFound))
        } else if s.developers[who].status != DeveloperStatus::Verified {
            Err(DispatchError::Pallet(Error::DeveloperNotVerified))
        } else if !battles.contains_key(battle_id) {
            Err(DispatchError::Pallet(Error::BattleNotFound))
        } else if s.battle_results.contains_key(battle_id) {
            Err(DispatchError::Pallet(Error::ResultAlreadyExists))
        } else {
            Ok(
                Transfer {
                    from: who,
                    to: account_of(s.config.pallet_id),
                    amount: s.config.result_stake,
                    keep_alive: true,
                },
            )
        },
    }
}

/// The transfer that finalizing result `result_id` at block `now` asks for (the stake back
/// to the developer), or why it fails.
pub open spec fn finalize_plan(s: OracleView, origin: Origin, result_id: HashId, now: u64) -> Result<
    Transfer,
    DispatchError<Error>,
> {
    let r = s.results[result_id];
    match signer(origin) {
        None => Err(DispatchError::BadOrigin),
        Some(_) => if !s.results.contains_key(result_id) {
            Err(DispatchError::Pallet(Error::ResultNotFound))
        } else if r.status != ResultStatus::Submitted {
            Err(DispatchError::Pallet(Error::ResultStillDisputed))
        } else if now < r.dispute_deadline {
            Err(DispatchError::Pallet(Error::DisputePeriodNotEnded))
        } else {
            Ok(
                Transfer {
                    from: account_of(s.config.pallet_id),
                    to: r.developer,
                    amount: r.stake_amount,
                    keep_alive: false,
                },
            )
        },
    }
}

/// The transfer that querying result `result_id` asks for (the fee), or why it fails.
pub open spec fn query_plan(s: OracleView, origin: Origin, result_id: HashId) -> Result<
    Transfer,
    DispatchError<Error>,
> {
    match signer(origin) {
        None => Err(DispatchError::BadOrigin),
        Some(who) => if !s.results.contains_key(result_id) {
            Err(DispatchError::Pallet(Error::ResultNotFound))
        } else {
            Ok(
                Transfer {
                    from: who,
                    to: account_of(s.config.pallet_id),
                    amount: s.config.query_fee,
                    keep_alive: true,
                },
            )
        },
    }
}

/// The transfer that disputing result `result_id` at block `now` asks for (the
/// challenger's stake), or why it fails.
pub open spec fn dispute_plan(s: OracleView, origin: Origin, result_id: HashId, now: u64) -> Result<
    Transfer,
    DispatchError<Error>,
> {
    match signer(origin) {
        None => Err(DispatchError::BadOrigin),
        Some(who) => if !s.results.contains_key(result_id) {
            Err(DispatchError::Pallet(Error::ResultNotFound))
        } else if now >= s.results[result_id].dispute_deadline {
            Err(DispatchError::Pallet(Error::DisputePeriodEnded))
        } else {
            Ok(
                Transfer {
                    from: who,
                    to: account_of(s.config.pallet_id),
                    amount: s.config.dispute_stake,
                    keep_alive: true,
                },
            )
        },
    }
}

/// The transfer that settling dispute `dispute_id` asks for (both stakes to the winner),
/// or why it fails.
pub open spec fn resolve_plan(
    s: OracleView,
    origin: Origin,
    dispute_id: HashId,
    challenger_wins: bool,
) -> Result<Transfer, DispatchError<Error>> {
    let d = s.disputes[dispute_id];
    let r = s.results[d.result_id];
    match origin {
        Origin::Root => if !s.disputes.contains_key(dispute_id) {
            Err(DispatchError::Pallet(Error::DisputeNotFound))
        } else if d.outcome != DisputeOutcome::Pending {
            Err(DispatchError::Pallet(Error::DisputeAlreadyResolved))
        } else if !s.results.contains_key(d.result_id) {
            Err(DispatchError::Pallet(Error::ResultNotFound))
        } else {
            Ok(
                Transfer {
                    from: account_of(s.config.pallet_id),
                    to: if challenger_wins {
                        d.challenger
                    } else {
                        r.developer
                    },
                    amount: r.stake_amount.saturating_add(d.challenger_stake),
                    keep_alive: false,
                },
            )
        },
        _ => Err(DispatchError::BadOrigin),
    }
}

/// The storage once dispute `dispute_id` is settled at block `now` (the challenger
/// winning where `challenger_wins`), both stakes having gone to the winner.
pub open spec fn after_resolve(s: OracleView, dispute_id: HashId, challenger_wins: bool, now: u64) -> OracleView {
    let d = s.disputes[dispute_id];
    let res = s.results[d.result_id];
    let stake = res.stake_amount;
    let outcome = if challenger_wins {
        DisputeOutcome::ChallengerWins
    } else {
        DisputeOutcome::DeveloperWins
    };
    let resolved = Event::DisputeResolved {
        dispute_id,
        outcome_id: outcome.code(),
        slashed_amount: if challenger_wins {
            stake
        } else {
            0
        },
    };
    OracleView {
        disputes: s.disputes.insert(
            dispute_id,
            Dispute { outcome, resolved_at: Some(now), ..d },
        ),
        developers: update_developer(
            s.developers,
            res.developer,
            |p: DeveloperProfile|
                if challenger_wins {
                    DeveloperProfile {
                        staked_amount: p.staked_amount.saturating_sub(stake),
                        failed_disputes: p.failed_disputes.saturating_add(1),
                        status: DeveloperStatus::Slashed,
                        ..p
                    }
                } else {
                    DeveloperProfile {
                        staked_amount: p.staked_amount.saturating_sub(stake),
                        successful_disputes: p.successful_disputes.saturating_add(
                            1,
                        ),
                        ..p
                    }
                },
        ),
        results: s.results.insert(
            d.result_id,
            GameResult {
                status: if challenger_wins {
                    ResultStatus::Slashed
                } else {
                    ResultStatus::Verified
                },
                ..res
            },
        ),
        total_staked: s.total_staked.saturating_sub(stake),
        events: if challenger_wins {
            s.events.push(
                Event::DeveloperSlashed {
                    developer: res.developer,
                    result_id: d.result_id,
                    amount: stake,
                },
            ).push(resolved)
        } else {
            s.events.push(resolved)
        },
        ..s
    }
}

/// The transfer that claiming the signer's revenue asks for, or why it fails.
pub open spec fn claim_plan(s: OracleView, origin: Origin) -> Result<Transfer, DispatchError<Error>> {
    match signer(origin) {
        None => Err(DispatchError::BadOrigin),
        Some(who) => if pending_of(s, who) == 0 {
            Err(DispatchError::Pallet(Error::NoRevenueToClaim))
        } else {
            Ok(
                Transfer {
                    from: account_of(s.config.pallet_id),
                    to: who,
                    amount: pending_of(s, who),
                    keep_alive: false,
                },
            )
        },
    }
}

/// Developer records with `who`'s changed by `f` (where `who` has one).
pub open spec fn update_developer(
    devs: Map<u64, DeveloperProfile>,
    who: u64,
    f: spec_fn(DeveloperProfile) -> DeveloperProfile,
) -> Map<u64, DeveloperProfile> {
    if devs.contains_key(who) {
        devs.insert(who, f(devs[who]))
    } else {
        devs
    }
}

/// The sum of the stakes recorded in the developer profiles `devs` (a finite map).
pub open spec fn developer_stakes(devs: Map<u64, DeveloperProfile>) -> int
    decreases devs.dom().len(),
    when devs.dom().finite()
{
    if devs.dom().len() == 0 {
        0
    } else {
        let who = devs.dom().choose();
        devs[who].staked_amount + developer_stakes(devs.remove(who))
    }
}

/// The pallet's total stake is exactly what the developers' profiles record as staked.
/// It holds of a new pallet, and every call keeps it where the stakes it adds or takes
/// off do not saturate (see each call's contract).
pub open spec fn stakes_tally(s: OracleView) -> bool {
    &&& s.developers.dom().finite()
    &&& s.total_staked == developer_stakes(s.developers)
}

/// The stake recorded for the developer of result `result_id` covers the result's stake,
/// so taking the result's stake off it does not saturate.
pub open spec fn stake_covered(s: OracleView, result_id: HashId) -> bool {
    s.results[result_id].stake_amount <= s.developers[s.results[result_id].developer].staked_amount
}

/// Summing the stakes may start at any developer.
proof fn lemma_developer_stakes_remove(devs: Map<u64, DeveloperProfile>, who: u64)
    requires
        devs.dom().finite(),
        devs.contains_key(who),
    ensures
        developer_stakes(devs) == devs[who].staked_amount + developer_stakes(devs.remove(who)),
    decreases devs.dom().len(),
{
    assert(devs.dom().remove(who).len() + 1 == devs.dom().len());
    let c = devs.dom().choose();
    assert(devs.contains_key(c));
    if c != who {
        let without_c = devs.remove(c);
        let without_who = devs.remove(who);
        assert(without_c.dom() =~= devs.dom().remove(c));
        assert(without_who.dom() =~= devs.dom().remove(who));
        lemma_developer_stakes_remove(without_c, who);
        lemma_developer_stakes_remove(without_who, c);
        assert(without_c.remove(who) =~= without_who.remove(c));
    }
}

/// Replacing or adding one profile changes the sum by the difference of its stake.
proof fn lemma_developer_stakes_insert(devs: Map<u64, DeveloperProfile>, who: u64, p: DeveloperProfile)
    requires
        devs.dom().finite(),
    ensures
        devs.insert(who, p).dom().finite(),
        developer_stakes(devs.insert(who, p)) == developer_stakes(devs) + p.staked_amount - (
        if devs.contains_key(who) {
            devs[who].staked_amount as int
        } else {
            0
        }),
{
    let m = devs.insert(who, p);
    assert(m.dom() =~= devs.dom().insert(who));
    lemma_developer_stakes_remove(m, who);
    if devs.contains_key(who) {
        lemma_developer_stakes_remove(devs, who);
        assert(m.remove(who) =~= devs.remove(who));
    } else {
        assert(m.remove(who) =~= devs);
    }
}

/// No profile records more than all profiles together.
proof fn lemma_developer_stakes_bound(devs: Map<u64, DeveloperProfile>, who: u64)
    requires
        devs.dom().finite(),
        devs.contains_key(who),
    ensures
        devs[who].staked_amount <= developer_stakes(devs),
{
    lemma_developer_stakes_nonnegative(devs.remove(who));
    lemma_developer_stakes_remove(devs, who);
}

proof fn lemma_developer_stakes_nonnegative(devs: Map<u64, DeveloperProfile>)
    requires
        devs.dom().finite(),
    ensures
        0 <= developer_stakes(devs),
    decreases devs.dom().len(),
{
    if devs.dom().len() != 0 {
        let c = devs.dom().choose();
        assert(devs.remove(c).dom() =~= devs.dom().remove(c));
        lemma_developer_stakes_nonnegative(devs.remove(c));
    }
}

/// Every stored result's developer has a profile.
pub open spec fn developers_known(
    developers: Map<u64, DeveloperProfile>,
    results: Map<HashId, GameResult>,
) -> bool {
    forall|r: HashId| #[trigger]
        results.contains_key(r) ==> developers.contains_key(results[r].developer)
}

/// Every battle's result and every dispute's result is stored.
pub open spec fn references_hold(
    results: Map<HashId, GameResult>,
    battle_results: Map<HashId, HashId>,
    disputes: Map<HashId, Dispute>,
) -> bool {
    &&& forall|b: HashId| #[trigger]
        battle_results.contains_key(b) ==> results.contains_key(battle_results[b])
    &&& forall|d: HashId| #[trigger]
        disputes.contains_key(d) ==> results.contains_key(disputes[d].result_id)
}

/// The storage of the pallet, as maps.
pub struct OracleView {
    pub config: Config,
    pub developers: Map<u64, DeveloperProfile>,
    pub results: Map<HashId, GameResult>,
    pub battle_results: Map<HashId, HashId>,
    pub disputes: Map<HashId, Dispute>,
    pub pending_revenue: Map<u64, u128>,
    /// Total staked by developers; a challenger's stake is not counted in it.
    pub total_staked: u128,
    pub events: Seq<Event>,
}

/// Revenue waiting for `who` (zero where there is no entry).
pub open spec fn pending_of(v: OracleView, who: u64) -> u128 {
    if v.pending_revenue.contains_key(who) {
        v.pending_revenue[who]
    } else {
        0
    }
}

/// The oracle pallet's storage and event log.
#[derive(Clone, Debug, PartialEq, Eq)]
pub struct Pallet {
    config: Config,
    developers: AssocMap<u64, DeveloperProfile>,
    results: AssocMap<HashId, GameResult>,
    battle_results: AssocMap<HashId, HashId>,
    disputes: AssocMap<HashId, Dispute>,
    pending_revenue: AssocMap<u64, u128>,
    total_staked: u128,
    events: Vec<Event>,
}

impl View for Pallet {
    type V = OracleView;

    closed spec fn view(&self) -> OracleView {
        OracleView {
            config: self.config,
            developers: self.developers@,
            results: self.results@,
            battle_results: self.battle_results@,
            disputes: self.disputes@,
            pending_revenue: self.pending_revenue@,
            total_staked: self.total_staked,
            events: self.events@,
        }
    }
}

impl Pallet {
    /// The maps are well formed, every result they refer to is stored, and every result's
    /// developer has a profile.
    pub closed spec fn wf(&self) -> bool {
        &&& self.developers.wf()
        &&& self.results.wf()
        &&& self.battle_results.wf()
        &&& self.disputes.wf()
        &&& self.pending_revenue.wf()
        &&& references_hold(self.results@, self.battle_results@, self.disputes@)
        &&& developers_known(self.developers@, self.results@)
    }

    /// Empty storage with parameters `config`.
    pub fn new(config: Config) -> (p: Pallet)
        ensures
            p.wf(),
            p@ == (OracleView {
                config,
                developers: Map::empty(),
                results: Map::empty(),
                battle_results: Map::empty(),
                disputes: Map::empty(),
                pending_revenue: Map::empty(),
                total_staked: 0,
                events: Seq::empty(),
            }),
            stakes_tally(p@),
    {
        let p = Pallet {
            config,
            developers: AssocMap::new(),
            results: AssocMap::new(),
            battle_results: AssocMap::new(),
            disputes: AssocMap::new(),
            pending_revenue: AssocMap::new(),
            total_staked: 0,
            events: Vec::new(),
        };
        assert(p@.events =~= Seq::<Event>::empty());
        assert(p@.developers.dom() =~= Set::<u64>::empty());
        p
    }

    /// The account that holds the pallet's funds.
    pub fn account_id(&self) -> (a: u64)
        ensures
            a == account_of(self@.config.pallet_id),
    {
        pallet_account(self.config.pallet_id)
    }

    /// The profile of developer `who`, where there is one.
    pub fn developer(&self, who: u64) -> (r: Option<&DeveloperProfile>)
        requires
            self.wf(),
        ensures
            match r {
                Some(p) => self@.developers.contains_key(who) && *p == self@.developers[who],
                None => !self@.developers.contains_key(who),
            },
    {
        self.developers.get(&who)
    }

    /// The result with id `id`, where there is one.
    pub fn result(&self, id: &HashId) -> (r: Option<&GameResult>)
        requires
            self.wf(),
        ensures
            match r {
                Some(x) => self@.results.contains_key(*id) && *x == self@.results[*id],
                None => !self@.results.contains_key(*id),
            },
    {
        self.results.get(id)
    }

    /// The result submitted for battle `battle_id`, where there is one.
    pub fn battle_result(&self, battle_id: &HashId) -> (r: Option<HashId>)
        requires
            self.wf(),
        ensures
            r == (if self@.battle_results.contains_key(*battle_id) {
                Some(self@.battle_results[*battle_id])
            } else {
                None
            }),
    {
        match self.battle_results.get(battle_id) {
            Some(h) => Some(*h),
            None => None,
        }
    }

    /// The dispute with id `id`, where there is one.
    pub fn dispute(&self, id: &HashId) -> (r: Option<&Dispute>)
        requires
            self.wf(),
        ensures
            match r {
                Some(d) => self@.disputes.contains_key(*id) && *d == self@.disputes[*id],
                None => !self@.disputes.contains_key(*id),
            },
    {
        self.disputes.get(id)
    }

    /// Revenue waiting for `who` to claim.
    pub fn pending_revenue(&self, who: u64) -> (r: u128)
        requires
            self.wf(),
        ensures
            r == pending_of(self@, who),
    {
        match self.pending_revenue.get(&who) {
            Some(a) => *a,
            None => 0,
        }
    }

    /// Total staked by developers (challengers' stakes are not counted).
    pub fn total_staked(&self) -> (r: u128)
        ensures
            r == self@.total_staked,
    {
        self.total_staked
    }

    /// The events reported so far, oldest first.
    pub fn events(&self) -> (e: &Vec<Event>)
        ensures
            e@ == self@.events,
    {
        &self.events
    }
    /// The transfer that `register_developer` asks for, or why it fails.
    pub fn plan_register_developer(&self, origin: Origin, game_name: &Vec<u8>) -> (r: Result<
        Transfer,
        DispatchError<Error>,
    >)
        requires
            self.wf(),
        ensures
            r == register_plan(self@, origin, game_name@),
    {
        let who = ensure_signed(origin)?;
        if self.developers.contains_key(&who) {
            return Err(DispatchError::Pallet(Error::DeveloperAlreadyRegistered));
        }
        if game_name.len() == 0 {
            return Err(DispatchError::Pallet(Error::InvalidGameName));
        }
        Ok(
            Transfer {
                from: who,
                to: self.account_id(),
                amount: self.config.developer_stake,
                keep_alive: true,
            },
        )
    }

    /// Registers the signer as a developer of `game_name` at block `now`, once the
    /// developer stake is paid (`paid` tells whether the currency made the transfer that
    /// `plan_register_developer` asks for). The profile starts pending, at 50% reputation.
    pub fn register_developer(&mut self, origin: Origin, game_name: Vec<u8>, now: u64, paid: bool) -> (r:
        Result<(), DispatchError<Error>>)
        requires
            old(self).wf(),
            game_name@.len() <= MAX_PROFILE_NAME,
        ensures
            final(self).wf(),
            match register_plan(old(self)@, origin, game_name@) {
                Err(e) => r == Err::<(), DispatchError<Error>>(e) && final(self)@ == old(self)@,
                Ok(t) => if !paid {
                    r == Err::<(), DispatchError<Error>>(DispatchError::TransferFailed)
                        && final(self)@ == old(self)@
                } else {
                    &&& r is Ok
                    &&& final(self)@ == (OracleView {
                        developers: old(self)@.developers.insert(
                            t.from,
                            DeveloperProfile {
                                developer: t.from,
                                game_name,
                                status: DeveloperStatus::Pending,
                                reputation_score: 5000,
                                staked_amount: t.amount,
                                total_submissions: 0,
                                successful_disputes: 0,
                                failed_disputes: 0,
                                total_revenue: 0,
                                registered_at: now,
                            },
                        ),
                        total_staked: old(self)@.total_staked.saturating_add(t.amount),
                        events: final(self)@.events,
                        ..old(self)@
                    })
                    &&& final(self)@.events.len() == old(self)@.events.len() + 1
                    &&& final(self)@.events.drop_last() == old(self)@.events
                    &&& final(self)@.events.last() matches Event::DeveloperRegistered {
                        developer,
                        game_name: name,
                        stake,
                    } && developer == t.from && name@ == game_name@ && stake == t.amount
                },
            },
            stakes_tally(old(self)@) && old(self)@.total_staked + old(self)@.config.developer_stake
                <= u128::MAX ==> stakes_tally(final(self)@),
    {
        let t = self.plan_register_developer(origin, &game_name)?;
        if !paid {
            return Err(DispatchError::TransferFailed);
        }
        let who = t.from;
        let stake = t.amount;
        let ghost before = self@;
        let event_name = game_name.clone();
        proof {
            assert(event_name@ =~= game_name@);
        }
        self.developers.insert(
            who,
            DeveloperProfile {
                developer: who,
                game_name,
                status: DeveloperStatus::Pending,
                reputation_score: 5000,
                staked_amount: stake,
                total_submissions: 0,
                successful_disputes: 0,
                failed_disputes: 0,
                total_revenue: 0,
                registered_at: now,
            },
        );
        self.total_staked = self.total_staked.saturating_add(stake);
        self.events.push(Event::DeveloperRegistered { developer: who, game_name: event_name, stake });
        proof {
            if stakes_tally(before) {
                lemma_developer_stakes_insert(before.developers, who, self@.developers[who]);
            }
        }
        Ok(())
    }

    /// Governance verifies developer `developer`, who may then submit results.
    pub fn verify_developer(&mut self, origin: Origin, developer: u64) -> (r: Result<
        (),
        DispatchError<Error>,
    >)
        requires
            old(self).wf(),
        ensures
            final(self).wf(),
            origin != Origin::Root ==> r == Err::<(), DispatchError<Error>>(
                DispatchError::BadOrigin,
            ) && final(self)@ == old(self)@,
            origin == Origin::Root && !old(self)@.developers.contains_key(developer) ==> r
                == Err::<(), DispatchError<Error>>(DispatchError::Pallet(Error::DeveloperNotFound))
                && final(self)@ == old(self)@,
            origin == Origin::Root && old(self)@.developers.contains_key(developer) ==> {
                &&& r is Ok
                &&& final(self)@ == (OracleView {
                    developers: old(self)@.developers.insert(
                        developer,
                        DeveloperProfile {
                            status: DeveloperStatus::Verified,
                            ..old(self)@.developers[developer]
                        },
                    ),
                    events: old(self)@.events.push(Event::DeveloperVerified { developer }),
                    ..old(self)@
                })
            },
            stakes_tally(old(self)@) ==> stakes_tally(final(self)@),
    {
        ensure_root(origin)?;
        if !self.developers.contains_key(&developer) {
            return Err(DispatchError::Pallet(Error::DeveloperNotFound));
        }
        let ghost before = self@;
        let mut profile = match self.developers.remove(&developer) {
            Some(p) => p,
            None => {
                return Err(DispatchError::Pallet(Error::DeveloperNotFound));
            },
        };
        profile.status = DeveloperStatus::Verified;
        self.developers.insert(developer, profile);
        self.events.push(Event::DeveloperVerified { developer });
        proof {
            assert(self@.developers =~= before.developers.insert(
                developer,
                DeveloperProfile { status: DeveloperStatus::Verified, ..before.developers[developer] },
            ));
            if stakes_tally(before) {
                lemma_developer_stakes_insert(before.developers, developer, self@.developers[developer]);
            }
        }
        Ok(())
    }

    /// The transfer that `submit_result` asks for, or why it fails.
    pub fn plan_submit_result(
        &self,
        battles: &battlechain::Pallet,
        origin: Origin,
        battle_id: &HashId,
    ) -> (r: Result<Transfer, DispatchError<Error>>)
        requires
            self.wf(),
            battles.wf(),
        ensures
            r == submit_plan(self@, battles@.battles, origin, *battle_id),
    {
        let who = ensure_signed(origin)?;
        match self.developers.get(&who) {
            Some(p) => {
                match p.status {
                    DeveloperStatus::Verified => {},
                    _ => {
                        return Err(DispatchError::Pallet(Error::DeveloperNotVerified));
                    },
                }
            },
            None => {
                return Err(DispatchError::Pallet(Error::DeveloperNotFound));
            },
        }
        if battles.battle(battle_id).is_none() {
            return Err(DispatchError::Pallet(Error::BattleNotFound));
        }
        if self.battle_results.contains_key(battle_id) {
            return Err(DispatchError::Pallet(Error::ResultAlreadyExists));
        }
        Ok(
            Transfer {
                from: who,
                to: self.account_id(),
                amount: self.config.result_stake,
                keep_alive: true,
            },
        )
    }

    /// A verified developer submits the result of battle `battle_id` at block `now`, once
    /// the result stake is paid. The result's id hashes the battle, the developer and the
    /// block; it can be disputed until the dispute period has passed.
    pub fn submit_result(
        &mut self,
        battles: &battlechain::Pallet,
        origin: Origin,
        battle_id: HashId,
        winner: Option<u64>,
        player1: u64,
        player2: u64,
        player1_score: u32,
        player2_score: u32,
        rounds_played: u8,
        game_name: Vec<u8>,
        game_version: u32,
        extension_data: Vec<u8>,
        now: u64,
        paid: bool,
    ) -> (r: Result<(), DispatchError<Error>>)
        requires
            old(self).wf(),
            battles.wf(),
            game_name@.len() <= MAX_RESULT_NAME,
            extension_data@.len() <= MAX_EXTENSION,
        ensures
            final(self).wf(),
            match submit_plan(old(self)@, battles@.battles, origin, battle_id) {
                Err(e) => r == Err::<(), DispatchError<Error>>(e) && final(self)@ == old(self)@,
                Ok(t) => if !paid {
                    r == Err::<(), DispatchError<Error>>(DispatchError::TransferFailed)
                        && final(self)@ == old(self)@
                } else {
                    let who = t.from;
                    let data = StandardizedResult {
                        battle_id,
                        winner,
                        player1,
                        player2,
                        player1_score,
                        player2_score,
                        rounds_played,
                        timestamp: now,
                        game_name,
                        game_version,
                        extension_data,
                    };
                    let result_id = id_of(derived_seed(battle_id, who, now));
                    let result = GameResult {
                        result_id,
                        developer: who,
                        result_data: data,
                        data_hash: id_of(result_bytes(data)),
                        stake_amount: t.amount,
                        status: ResultStatus::Submitted,
                        query_count: 0,
                        revenue_earned: 0,
                        submitted_at: now,
                        dispute_deadline: now.saturating_add(old(self)@.config.dispute_period),
                    };
                    let p = old(self)@.developers[who];
                    &&& r is Ok
                    &&& final(self)@ == (OracleView {
                        developers: old(self)@.developers.insert(
                            who,
                            DeveloperProfile {
                                total_submissions: p.total_submissions.saturating_add(1),
                                staked_amount: p.staked_amount.saturating_add(t.amount),
                                ..p
                            },
                        ),
                        results: old(self)@.results.insert(result_id, result),
                        battle_results: old(self)@.battle_results.insert(battle_id, result_id),
                        total_staked: old(self)@.total_staked.saturating_add(t.amount),
                        events: old(self)@.events.push(
                            Event::ResultSubmitted {
                                result_id,
                                developer: who,
                                battle_id,
                                stake: t.amount,
                            },
                        ),
                        ..old(self)@
                    })
                },
            },
            stakes_tally(old(self)@) && old(self)@.total_staked + old(self)@.config.result_stake
                <= u128::MAX ==> stakes_tally(final(self)@),
    {
        let t = self.plan_submit_result(battles, origin, &battle_id)?;
        if !paid {
            return Err(DispatchError::TransferFailed);
        }
        let who = t.from;
        let stake = t.amount;
        let result_id = derive_id(&battle_id, who, now);
        let ghost before = self@;
        let mut bytes: Vec<u8> = Vec::new();
        push_hash(&mut bytes, &battle_id);
        let mut part = encode_option_u64(winner);
        bytes.append(&mut part);
        let mut part = encode_u64(player1);
        bytes.append(&mut part);
        let mut part = encode_u64(player2);
        bytes.append(&mut part);
        let mut part = encode_u32(player1_score);
        bytes.append(&mut part);
        let mut part = encode_u32(player2_score);
        bytes.append(&mut part);
        bytes.push(rounds_played);
        let mut part = encode_u64(now);
        bytes.append(&mut part);
        let mut part = encode_bytes(&game_name);
        bytes.append(&mut part);
        let mut part = encode_u32(game_version);
        bytes.append(&mut part);
        let mut part = encode_bytes(&extension_data);
        bytes.append(&mut part);
        let result_data = StandardizedResult {
            battle_id,
            winner,
            player1,
            player2,
            player1_score,
            player2_score,
            rounds_played,
            timestamp: now,
            game_name,
            game_version,
            extension_data,
        };
        proof {
            assert(bytes@ =~= result_bytes(result_data));
        }
        let data_hash = hash_seed(&bytes);
        let dispute_deadline = now.saturating_add(self.config.dispute_period);
        self.results.insert(
            result_id,
            GameResult {
                result_id,
                developer: who,
                result_data,
                data_hash,
                stake_amount: stake,
                status: ResultStatus::Submitted,
                query_count: 0,
                revenue_earned: 0,
                submitted_at: now,
                dispute_deadline,
            },
        );
        self.battle_results.insert(battle_id, result_id);
        match self.developers.remove(&who) {
            Some(mut profile) => {
                profile.total_submissions = profile.total_submissions.saturating_add(1);
                profile.staked_amount = profile.staked_amount.saturating_add(stake);
                self.developers.insert(who, profile);
            },
            None => {},
        }
        self.total_staked = self.total_staked.saturating_add(stake);
        self.events.push(Event::ResultSubmitted { result_id, developer: who, battle_id, stake });
        proof {
            let p = before.developers[who];
            assert(self@.developers =~= before.developers.insert(
                who,
                DeveloperProfile {
                    total_submissions: p.total_submissions.saturating_add(1),
                    staked_amount: p.staked_amount.saturating_add(stake),
                    ..p
                },
            ));
            if stakes_tally(before) {
                lemma_developer_stakes_bound(before.developers, who);
                lemma_developer_stakes_insert(before.developers, who, self@.developers[who]);
            }
        }
        Ok(())
    }
    /// The transfer that `finalize_result` asks for, or why it fails.
    pub fn plan_finalize_result(&self, origin: Origin, result_id: &HashId, now: u64) -> (r: Result<
        Transfer,
        DispatchError<Error>,
    >)
        requires
            self.wf(),
        ensures
            r == finalize_plan(self@, origin, *result_id, now),
    {
        let _who = ensure_signed(origin)?;
        let result = match self.results.get(result_id) {
            Some(x) => x,
            None => {
                return Err(DispatchError::Pallet(Error::ResultNotFound));
            },
        };
        match result.status {
            ResultStatus::Submitted => {},
            _ => {
                return Err(DispatchError::Pallet(Error::ResultStillDisputed));
            },
        }
        if now < result.dispute_deadline {
            return Err(DispatchError::Pallet(Error::DisputePeriodNotEnded));
        }
        Ok(
            Transfer {
                from: self.account_id(),
                to: result.developer,
                amount: result.stake_amount,
                keep_alive: false,
            },
        )
    }

    /// Finalizes result `result_id` at block `now`, once its dispute period is over and
    /// undisputed: the result is verified and its stake returns to the developer.
    pub fn finalize_result(&mut self, origin: Origin, result_id: HashId, now: u64, paid: bool) -> (r:
        Result<(), DispatchError<Error>>)
        requires
            old(self).wf(),
        ensures
            final(self).wf(),
            match finalize_plan(old(self)@, origin, result_id, now) {
                Err(e) => r == Err::<(), DispatchError<Error>>(e) && final(self)@ == old(self)@,
                Ok(t) => if !paid {
                    r == Err::<(), DispatchError<Error>>(DispatchError::TransferFailed)
                        && final(self)@ == old(self)@
                } else {
                    let res = old(self)@.results[result_id];
                    &&& r is Ok
                    &&& final(self)@ == (OracleView {
                        results: old(self)@.results.insert(
                            result_id,
                            GameResult { status: ResultStatus::Verified, ..res },
                        ),
                        developers: update_developer(
                            old(self)@.developers,
                            res.developer,
                            |p: DeveloperProfile|
                                DeveloperProfile {
                                    staked_amount: p.staked_amount.saturating_sub(res.stake_amount),
                                    ..p
                                },
                        ),
                        total_staked: old(self)@.total_staked.saturating_sub(res.stake_amount),
                        events: old(self)@.events.push(Event::ResultVerified { result_id }),
                        ..old(self)@
                    })
                },
            },
            stakes_tally(old(self)@) && stake_covered(old(self)@, result_id) ==> stakes_tally(
                final(self)@,
            ),
    {
        let t = self.plan_finalize_result(origin, &result_id, now)?;
        if !paid {
            return Err(DispatchError::TransferFailed);
        }
        let ghost before = self@;
        let stake = t.amount;
        let developer = t.to;
        let mut result = match self.results.remove(&result_id) {
            Some(x) => x,
            None => {
                return Err(DispatchError::Pallet(Error::ResultNotFound));
            },
        };
        result.status = ResultStatus::Verified;
        self.results.insert(result_id, result);
        self.release_stake(developer, stake);
        self.total_staked = self.total_staked.saturating_sub(stake);
        self.events.push(Event::ResultVerified { result_id });
        proof {
            assert(self@.results =~= before.results.insert(
                result_id,
                GameResult { status: ResultStatus::Verified, ..before.results[result_id] },
            ));
            if stakes_tally(before) && stake_covered(before, result_id) {
                lemma_developer_stakes_bound(before.developers, developer);
                lemma_developer_stakes_insert(before.developers, developer, self@.developers[developer]);
            }
        }
        Ok(())
    }

    /// Takes `amount` off the stake recorded for developer `who` (where there is a record).
    fn release_stake(&mut self, who: u64, amount: u128)
        requires
            old(self).wf(),
        ensures
            final(self).wf(),
            final(self)@ == (OracleView {
                developers: update_developer(
                    old(self)@.developers,
                    who,
                    |p: DeveloperProfile|
                        DeveloperProfile { staked_amount: p.staked_amount.saturating_sub(amount), ..p },
                ),
                ..old(self)@
            }),
    {
        let ghost before = self@;
        if self.developers.contains_key(&who) {
            match self.developers.remove(&who) {
                Some(mut profile) => {
                    profile.staked_amount = profile.staked_amount.saturating_sub(amount);
                    self.developers.insert(who, profile);
                },
                None => {},
            }
            proof {
                let p = before.developers[who];
                assert(self@.developers =~= before.developers.insert(
                    who,
                    DeveloperProfile { staked_amount: p.staked_amount.saturating_sub(amount), ..p },
                ));
            }
        }
    }

    /// The transfer that `query_result` asks for, or why it fails.
    pub fn plan_query_result(&self, origin: Origin, result_id: &HashId) -> (r: Result<
        Transfer,
        DispatchError<Error>,
    >)
        requires
            self.wf(),
        ensures
            r == query_plan(self@, origin, *result_id),
    {
        let who = ensure_signed(origin)?;
        if !self.results.contains_key(result_id) {
            return Err(DispatchError::Pallet(Error::ResultNotFound));
        }
        Ok(
            Transfer {
                from: who,
                to: self.account_id(),
                amount: self.config.query_fee,
                keep_alive: true,
            },
        )
    }

    /// The signer pays the query fee for result `result_id`; the provider's share of the
    /// fee accrues to the result's developer.
    pub fn query_result(&mut self, origin: Origin, result_id: HashId, paid: bool) -> (r: Result<
        (),
        DispatchError<Error>,
    >)
        requires
            old(self).wf(),
        ensures
            final(self).wf(),
            match query_plan(old(self)@, origin, result_id) {
                Err(e) => r == Err::<(), DispatchError<Error>>(e) && final(self)@ == old(self)@,
                Ok(t) => if !paid {
                    r == Err::<(), DispatchError<Error>>(DispatchError::TransferFailed)
                        && final(self)@ == old(self)@
                } else {
                    let res = old(self)@.results[result_id];
                    let revenue = provider_revenue(old(self)@.config);
                    &&& r is Ok
                    &&& final(self)@ == (OracleView {
                        pending_revenue: old(self)@.pending_revenue.insert(
                            res.developer,
                            pending_of(old(self)@, res.developer).saturating_add(revenue),
                        ),
                        results: old(self)@.results.insert(
                            result_id,
                            GameResult {
                                query_count: res.query_count.saturating_add(1),
                                revenue_earned: res.revenue_earned.saturating_add(revenue),
                                ..res
                            },
                        ),
                        events: old(self)@.events.push(
                            Event::DataQueried {
                                result_id,
                                querier: t.from,
                                fee: t.amount,
                                developer_revenue: revenue,
                            },
                        ),
                        ..old(self)@
                    })
                },
            },
            stakes_tally(old(self)@) ==> stakes_tally(final(self)@),
    {
        let t = self.plan_query_result(origin, &result_id)?;
        let parts = perbill_from_rational(
            self.config.provider_rev_share_bps as u128,
            BPS_WHOLE,
        );
        let revenue = perbill_mul_floor(parts, self.config.query_fee);
        if !paid {
            return Err(DispatchError::TransferFailed);
        }
        let ghost before = self@;
        let mut result = match self.results.remove(&result_id) {
            Some(x) => x,
            None => {
                return Err(DispatchError::Pallet(Error::ResultNotFound));
            },
        };
        let developer = result.developer;
        let pending = match self.pending_revenue.get(&developer) {
            Some(a) => *a,
            None => 0,
        };
        self.pending_revenue.insert(developer, pending.saturating_add(revenue));
        result.query_count = result.query_count.saturating_add(1);
        result.revenue_earned = result.revenue_earned.saturating_add(revenue);
        self.results.insert(result_id, result);
        self.events.push(
            Event::DataQueried {
                result_id,
                querier: t.from,
                fee: t.amount,
                developer_revenue: revenue,
            },
        );
        proof {
            let res = before.results[result_id];
            assert(self@.results =~= before.results.insert(
                result_id,
                GameResult {
                    query_count: res.query_count.saturating_add(1),
                    revenue_earned: res.revenue_earned.saturating_add(revenue),
                    ..res
                },
            ));
        }
        Ok(())
    }

    /// The transfer that `create_dispute` asks for, or why it fails.
    pub fn plan_create_dispute(&self, origin: Origin, result_id: &HashId, now: u64) -> (r: Result<
        Transfer,
        DispatchError<Error>,
    >)
        requires
            self.wf(),
        ensures
            r == dispute_plan(self@, origin, *result_id, now),
    {
        let who = ensure_signed(origin)?;
        let deadline = match self.results.get(result_id) {
            Some(x) => x.dispute_deadline,
            None => {
                return Err(DispatchError::Pallet(Error::ResultNotFound));
            },
        };
        if now >= deadline {
            return Err(DispatchError::Pallet(Error::DisputePeriodEnded));
        }
        Ok(
            Transfer {
                from: who,
                to: self.account_id(),
                amount: self.config.dispute_stake,
                keep_alive: true,
            },
        )
    }

    /// The signer challenges result `result_id` at block `now`, before its dispute
    /// deadline, staking the dispute stake; the result becomes disputed. The dispute's id
    /// hashes the result, the challenger and the block.
    pub fn create_dispute(
        &mut self,
        origin: Origin,
        result_id: HashId,
        reason: Vec<u8>,
        evidence_hash: HashId,
        now: u64,
        paid: bool,
    ) -> (r: Result<(), DispatchError<Error>>)
        requires
            old(self).wf(),
            reason@.len() <= MAX_REASON,
        ensures
            final(self).wf(),
            match dispute_plan(old(self)@, origin, result_id, now) {
                Err(e) => r == Err::<(), DispatchError<Error>>(e) && final(self)@ == old(self)@,
                Ok(t) => if !paid {
                    r == Err::<(), DispatchError<Error>>(DispatchError::TransferFailed)
                        && final(self)@ == old(self)@
                } else {
                    let dispute_id = id_of(derived_seed(result_id, t.from, now));
                    &&& r is Ok
                    &&& final(self)@ == (OracleView {
                        disputes: old(self)@.disputes.insert(
                            dispute_id,
                            Dispute {
                                dispute_id,
                                result_id,
                                challenger: t.from,
                                challenger_stake: t.amount,
                                reason,
                                evidence_hash,
                                outcome: DisputeOutcome::Pending,
                                resolved_at: None,
                                created_at: now,
                            },
                        ),
                        results: old(self)@.results.insert(
                            result_id,
                            GameResult {
                                status: ResultStatus::Disputed,
                                ..old(self)@.results[result_id]
                            },
                        ),
                        events: old(self)@.events.push(
                            Event::DisputeCreated {
                                dispute_id,
                                result_id,
                                challenger: t.from,
                                stake: t.amount,
                            },
                        ),
                        ..old(self)@
                    })
                },
            },
            stakes_tally(old(self)@) ==> stakes_tally(final(self)@),
    {
        let t = self.plan_create_dispute(origin, &result_id, now)?;
        if !paid {
            return Err(DispatchError::TransferFailed);
        }
        let ghost before = self@;
        let who = t.from;
        let stake = t.amount;
        let dispute_id = derive_id(&result_id, who, now);
        self.disputes.insert(
            dispute_id,
            Dispute {
                dispute_id,
                result_id,
                challenger: who,
                challenger_stake: stake,
                reason,
                evidence_hash,
                outcome: DisputeOutcome::Pending,
                resolved_at: None,
                created_at: now,
            },
        );
        let mut result = match self.results.remove(&result_id) {
            Some(x) => x,
            None => {
                return Err(DispatchError::Pallet(Error::ResultNotFound));
            },
        };
        result.status = ResultStatus::Disputed;
        self.results.insert(result_id, result);
        self.events.push(
            Event::DisputeCreated { dispute_id, result_id, challenger: who, stake },
        );
        proof {
            assert(self@.results =~= before.results.insert(
                result_id,
                GameResult { status: ResultStatus::Disputed, ..before.results[result_id] },
            ));
        }
        Ok(())
    }
    /// The transfer that `resolve_dispute` asks for, or why it fails.
    pub fn plan_resolve_dispute(&self, origin: Origin, dispute_id: &HashId, challenger_wins: bool) -> (r:
        Result<Transfer, DispatchError<Error>>)
        requires
            self.wf(),
        ensures
            r == resolve_plan(self@, origin, *dispute_id, challenger_wins),
    {
        ensure_root(origin)?;
        let dispute = match self.disputes.get(dispute_id) {
            Some(d) => d,
            None => {
                return Err(DispatchError::Pallet(Error::DisputeNotFound));
            },
        };
        match dispute.outcome {
            DisputeOutcome::Pending => {},
            _ => {
                return Err(DispatchError::Pallet(Error::DisputeAlreadyResolved));
            },
        }
        let result = match self.results.get(&dispute.result_id) {
            Some(x) => x,
            None => {
                return Err(DispatchError::Pallet(Error::ResultNotFound));
            },
        };
        Ok(
            Transfer {
                from: self.account_id(),
                to: if challenger_wins {
                    dispute.challenger
                } else {
                    result.developer
                },
                amount: result.stake_amount.saturating_add(dispute.challenger_stake),
                keep_alive: false,
            },
        )
    }

    /// Governance settles dispute `dispute_id` at block `now`. Both stakes go to the
    /// winner. When the challenger wins, the developer is slashed and so is the result;
    /// otherwise the result is verified and the developer's record counts a defended
    /// dispute.
    pub fn resolve_dispute(
        &mut self,
        origin: Origin,
        dispute_id: HashId,
        challenger_wins: bool,
        now: u64,
        paid: bool,
    ) -> (r: Result<(), DispatchError<Error>>)
        requires
            old(self).wf(),
        ensures
            final(self).wf(),
            match resolve_plan(old(self)@, origin, dispute_id, challenger_wins) {
                Err(e) => r == Err::<(), DispatchError<Error>>(e) && final(self)@ == old(self)@,
                Ok(t) => if !paid {
                    r == Err::<(), DispatchError<Error>>(DispatchError::TransferFailed)
                        && final(self)@ == old(self)@
                } else {
                    r is Ok && final(self)@ == after_resolve(old(self)@, dispute_id, challenger_wins, now)
                },
            },
            r is Ok ==> final(self)@.disputes[dispute_id].outcome != DisputeOutcome::Pending,
            stakes_tally(old(self)@) && stake_covered(
                old(self)@,
                old(self)@.disputes[dispute_id].result_id,
            ) ==> stakes_tally(final(self)@),
    {
        let _t = self.plan_resolve_dispute(origin, &dispute_id, challenger_wins)?;
        if !paid {
            return Err(DispatchError::TransferFailed);
        }
        let ghost before = self@;
        let outcome = if challenger_wins {
            DisputeOutcome::ChallengerWins
        } else {
            DisputeOutcome::DeveloperWins
        };
        let mut dispute = match self.disputes.remove(&dispute_id) {
            Some(d) => d,
            None => {
                return Err(DispatchError::Pallet(Error::DisputeNotFound));
            },
        };
        dispute.outcome = outcome;
        dispute.resolved_at = Some(now);
        let result_id = dispute.result_id;
        self.disputes.insert(dispute_id, dispute);
        let mut result = match self.results.remove(&result_id) {
            Some(x) => x,
            None => {
                return Err(DispatchError::Pallet(Error::ResultNotFound));
            },
        };
        let developer = result.developer;
        let result_stake = result.stake_amount;
        let ghost mid = self@;
        if self.developers.contains_key(&developer) {
            match self.developers.remove(&developer) {
                Some(mut profile) => {
                    profile.staked_amount = profile.staked_amount.saturating_sub(result_stake);
                    if challenger_wins {
                        profile.failed_disputes = profile.failed_disputes.saturating_add(1);
                        profile.status = DeveloperStatus::Slashed;
                    } else {
                        profile.successful_disputes = profile.successful_disputes.saturating_add(
                            1,
                        );
                    }
                    self.developers.insert(developer, profile);
                },
                None => {},
            }
        }
        proof {
            if before.developers.contains_key(developer) {
                let p = before.developers[developer];
                assert(self@.developers =~= before.developers.insert(
                    developer,
                    if challenger_wins {
                        DeveloperProfile {
                            staked_amount: p.staked_amount.saturating_sub(result_stake),
                            failed_disputes: p.failed_disputes.saturating_add(1),
                            status: DeveloperStatus::Slashed,
                            ..p
                        }
                    } else {
                        DeveloperProfile {
                            staked_amount: p.staked_amount.saturating_sub(result_stake),
                            successful_disputes: p.successful_disputes.saturating_add(1),
                            ..p
                        }
                    },
                ));
            }
        }
        if challenger_wins {
            result.status = ResultStatus::Slashed;
        } else {
            result.status = ResultStatus::Verified;
        }
        self.results.insert(result_id, result);
        self.total_staked = self.total_staked.saturating_sub(result_stake);
        if challenger_wins {
            self.events.push(
                Event::DeveloperSlashed { developer, result_id, amount: result_stake },
            );
        }
        let outcome_id = outcome.to_u8();
        self.events.push(
            Event::DisputeResolved {
                dispute_id,
                outcome_id,
                slashed_amount: if challenger_wins {
                    result_stake
                } else {
                    0
                },
            },
        );
        proof {
            let d = before.disputes[dispute_id];
            assert(self@.disputes =~= before.disputes.insert(
                dispute_id,
                Dispute { outcome, resolved_at: Some(now), ..d },
            ));
            assert(self@.results =~= before.results.insert(
                result_id,
                GameResult {
                    status: if challenger_wins {
                        ResultStatus::Slashed
                    } else {
                        ResultStatus::Verified
                    },
                    ..before.results[result_id]
                },
            ));
            if stakes_tally(before) && stake_covered(before, result_id) {
                lemma_developer_stakes_bound(before.developers, developer);
                lemma_developer_stakes_insert(before.developers, developer, self@.developers[developer]);
            }
        }
        Ok(())
    }

    /// The transfer that `claim_revenue` asks for, or why it fails.
    pub fn plan_claim_revenue(&self, origin: Origin) -> (r: Result<Transfer, DispatchError<Error>>)
        requires
            self.wf(),
        ensures
            r == claim_plan(self@, origin),
    {
        let who = ensure_signed(origin)?;
        let amount = self.pending_revenue(who);
        if amount == 0 {
            return Err(DispatchError::Pallet(Error::NoRevenueToClaim));
        }
        Ok(Transfer { from: self.account_id(), to: who, amount, keep_alive: false })
    }

    /// The signer collects all revenue waiting for them.
    pub fn claim_revenue(&mut self, origin: Origin, paid: bool) -> (r: Result<
        (),
        DispatchError<Error>,
    >)
        requires
            old(self).wf(),
        ensures
            final(self).wf(),
            match claim_plan(old(self)@, origin) {
                Err(e) => r == Err::<(), DispatchError<Error>>(e) && final(self)@ == old(self)@,
                Ok(t) => if !paid {
                    r == Err::<(), DispatchError<Error>>(DispatchError::TransferFailed)
                        && final(self)@ == old(self)@
                } else {
                    &&& r is Ok
                    &&& final(self)@ == (OracleView {
                        pending_revenue: old(self)@.pending_revenue.remove(t.to),
                        developers: update_developer(
                            old(self)@.developers,
                            t.to,
                            |p: DeveloperProfile|
                                DeveloperProfile {
                                    total_revenue: p.total_revenue.saturating_add(t.amount),
                                    ..p
                                },
                        ),
                        events: old(self)@.events.push(
                            Event::RevenueClaimed { developer: t.to, amount: t.amount },
                        ),
                        ..old(self)@
                    })
                },
            },
            stakes_tally(old(self)@) ==> stakes_tally(final(self)@),
    {
        let t = self.plan_claim_revenue(origin)?;
        if !paid {
            return Err(DispatchError::TransferFailed);
        }
        let ghost before = self@;
        let who = t.to;
        let amount = t.amount;
        self.pending_revenue.remove(&who);
        if self.developers.contains_key(&who) {
            match self.developers.remove(&who) {
                Some(mut profile) => {
                    profile.total_revenue = profile.total_revenue.saturating_add(amount);
                    self.developers.insert(who, profile);
                },
                None => {},
            }
            proof {
                let p = before.developers[who];
                assert(self@.developers =~= before.developers.insert(
                    who,
                    DeveloperProfile { total_revenue: p.total_revenue.saturating_add(amount), ..p },
                ));
                if stakes_tally(before) {
                    lemma_developer_stakes_insert(before.developers, who, self@.developers[who]);
                }
            }
        }
        self.events.push(Event::RevenueClaimed { developer: who, amount });
        Ok(())
    }
}

/// The developer's share of a query fee never exceeds the fee.
pub proof fn lemma_provider_share_at_most_fee(config: Config)
    ensures
        provider_revenue(config) <= config.query_fee,
{
    let parts = rational_parts(
        config.provider_rev_share_bps as nat,
        BPS_WHOLE as nat,
        PERBILL_ACCURACY as nat,
    );
    assert(parts <= PERBILL_ACCURACY) by (nonlinear_arith)
        requires
            parts == rational_parts(
                config.provider_rev_share_bps as nat,
                BPS_WHOLE as nat,
                PERBILL_ACCURACY as nat,
            ),
    ;
    let x = config.query_fee as nat;
    assert(x * parts / (PERBILL_ACCURACY as nat) <= x) by (nonlinear_arith)
        requires
            parts <= PERBILL_ACCURACY,
    ;
}

/// The developer's revenue from a query is the configured share of the fee: the fee
/// times `provider_rev_share_bps / 10000`, rounded down, or the whole fee where the share
/// is above 10000.
pub proof fn lemma_provider_revenue_follows_share(config: Config)
    ensures
        config.provider_rev_share_bps <= 10000 ==> provider_revenue(config) as int == (
        config.query_fee as int) * (config.provider_rev_share_bps as int) / 10000,
        config.provider_rev_share_bps > 10000 ==> provider_revenue(config) == config.query_fee,
{
    let bps = config.provider_rev_share_bps as int;
    let fee = config.query_fee as int;
    let parts = rational_parts(bps as nat, BPS_WHOLE as nat, PERBILL_ACCURACY as nat);
    assert(parts <= 1000000000) by (nonlinear_arith)
        requires
            parts == rational_parts(bps as nat, BPS_WHOLE as nat, PERBILL_ACCURACY as nat),
    ;
    let floor = (fee * parts) / 1000000000;
    assert(0 <= floor <= fee) by (nonlinear_arith)
        requires
            floor == (fee * parts) / 1000000000,
            0 <= parts <= 1000000000,
            0 <= fee,
    ;
    assert(provider_revenue(config) as int == floor);
    if bps <= 10000 {
        assert(parts == bps * 100000) by {
            assert(bps * 1000000000 == 10000 * (bps * 100000)) by (nonlinear_arith);
            vstd::arithmetic::div_mod::lemma_div_multiples_vanish(bps * 100000, 10000);
        }
        assert(fee * parts == (fee * bps) * 100000) by (nonlinear_arith)
            requires
                parts == bps * 100000,
        ;
        assert(fee * bps >= 0) by (nonlinear_arith)
            requires
                fee >= 0,
                bps >= 0,
        ;
        vstd::arithmetic::div_mod::lemma_div_denominator((fee * bps) * 100000, 100000, 10000);
        vstd::arithmetic::div_mod::lemma_div_multiples_vanish(fee * bps, 100000);
        assert((fee * bps) * 100000 == 100000 * (fee * bps)) by (nonlinear_arith);
        assert(floor == ((fee * bps) * 100000) / 1000000000);
        assert(((fee * bps) * 100000) / 100000 == fee * bps);
    } else {
        assert(parts == PERBILL_ACCURACY);
        vstd::arithmetic::div_mod::lemma_div_multiples_vanish(fee, 1000000000);
        assert(fee * 1000000000 == 1000000000 * fee) by (nonlinear_arith);
    }
}

/// Settling a dispute releases the disputed result's stake whichever side wins: the
/// developer's recorded stake and the total stake each drop by exactly the result's
/// stake (where that does not saturate), both stakes are paid to the winner (the
/// challenger where `challenger_wins`, else the developer), and the result ends slashed
/// or verified accordingly, with the developer slashed where the challenger wins.
pub proof fn lemma_settlement_releases_result_stake(
    p: &Pallet,
    dispute_id: HashId,
    challenger_wins: bool,
    now: u64,
)
    requires
        p.wf(),
        resolve_plan(p@, Origin::Root, dispute_id, challenger_wins) is Ok,
    ensures
        ({
            let s = p@;
            let d = s.disputes[dispute_id];
            let res = s.results[d.result_id];
            let dev = res.developer;
            let after = after_resolve(s, dispute_id, challenger_wins, now);
            let t = resolve_plan(s, Origin::Root, dispute_id, challenger_wins).unwrap();
            &&& s.developers.contains_key(dev) && after.developers.contains_key(dev)
            &&& res.stake_amount <= s.developers[dev].staked_amount
                ==> after.developers[dev].staked_amount == s.developers[dev].staked_amount
                - res.stake_amount
            &&& res.stake_amount <= s.total_staked ==> after.total_staked == s.total_staked
                - res.stake_amount
            &&& t.from == account_of(s.config.pallet_id)
            &&& t.to == (if challenger_wins {
                d.challenger
            } else {
                dev
            })
            &&& res.stake_amount + d.challenger_stake <= u128::MAX ==> t.amount
                == res.stake_amount + d.challenger_stake
            &&& after.results[d.result_id].status == (if challenger_wins {
                ResultStatus::Slashed
            } else {
                ResultStatus::Verified
            })
            &&& challenger_wins ==> after.developers[dev].status == DeveloperStatus::Slashed
            &&& !challenger_wins ==> after.developers[dev].status == s.developers[dev].status
            &&& after.disputes[dispute_id].outcome == (if challenger_wins {
                DisputeOutcome::ChallengerWins
            } else {
                DisputeOutcome::DeveloperWins
            })
        }),
{
}

/// A slashed developer can no longer submit results.
pub proof fn lemma_slashed_developer_cannot_submit(
    s: OracleView,
    battles: Map<HashId, battlechain::Battle>,
    developer: u64,
    battle_id: HashId,
)
    requires
        s.developers.contains_key(developer),
        s.developers[developer].status == DeveloperStatus::Slashed,
    ensures
        submit_plan(s, battles, Origin::Signed(developer), battle_id) == Err::<
            Transfer,
            DispatchError<Error>,
        >(DispatchError::Pallet(Error::DeveloperNotVerified)),
{
}

/// A result can be disputed only before its deadline and finalized only from it on: at
/// no block are both possible, and once a result may be finalized it can never again be
/// disputed.
pub proof fn lemma_dispute_window(
    s: OracleView,
    finalizer: Origin,
    challenger: Origin,
    result_id: HashId,
    now: u64,
    later: u64,
)
    requires
        finalize_plan(s, finalizer, result_id, now) is Ok,
        now <= later,
    ensures
        dispute_plan(s, challenger, result_id, now) is Err,
        signer(challenger) is Some ==> dispute_plan(s, challenger, result_id, later) == Err::<
            Transfer,
            DispatchError<Error>,
        >(DispatchError::Pallet(Error::DisputePeriodEnded)),
{
}

/// Every state the pallet's operations reach refers only to stored results, so a
/// pending dispute can always be settled: settling it never fails for a missing result.
pub proof fn lemma_disputes_can_be_settled(p: &Pallet, dispute_id: HashId, challenger_wins: bool)
    requires
        p.wf(),
        p@.disputes.contains_key(dispute_id),
        p@.disputes[dispute_id].outcome == DisputeOutcome::Pending,
    ensures
        references_hold(p@.results, p@.battle_results, p@.disputes),
        resolve_plan(p@, Origin::Root, dispute_id, challenger_wins) is Ok,
{
}

/// Where the total stake is the sum of the developers' stakes, no developer's stake
/// exceeds it, so adding to the total without saturating adds to any developer's stake
/// without saturating, and taking off a developer's stake what it covers takes off the
/// total what it covers.
pub proof fn lemma_developer_stake_within_total(s: OracleView, who: u64)
    requires
        stakes_tally(s),
        s.developers.contains_key(who),
    ensures
        s.developers[who].staked_amount <= s.total_staked,
{
    lemma_developer_stakes_bound(s.developers, who);
}

/// A dispute is settled once: after it has been settled, settling it again is refused
/// (by governance, as already settled), so neither stake is paid out a second time and
/// the storage stays as it is.
pub proof fn lemma_dispute_settled_once(
    s: OracleView,
    dispute_id: HashId,
    challenger_wins: bool,
    now: u64,
    origin: Origin,
    again: bool,
)
    requires
        resolve_plan(s, Origin::Root, dispute_id, challenger_wins) is Ok,
    ensures
        after_resolve(s, dispute_id, challenger_wins, now).disputes[dispute_id].outcome
            != DisputeOutcome::Pending,
        resolve_plan(after_resolve(s, dispute_id, challenger_wins, now), origin, dispute_id, again)
            is Err,
        origin == Origin::Root ==> resolve_plan(
            after_resolve(s, dispute_id, challenger_wins, now),
            origin,
            dispute_id,
            again,
        ) == Err::<Transfer, DispatchError<Error>>(
            DispatchError::Pallet(Error::DisputeAlreadyResolved),
        ),
{
}

/// A result's stake is returned once: a verified result cannot be finalized again.
pub proof fn lemma_stake_returned_once(s: OracleView, origin: Origin, result_id: HashId, now: u64)
    requires
        s.results.contains_key(result_id),
        s.results[result_id].status == ResultStatus::Verified,
        signer(origin) is Some,
    ensures
        finalize_plan(s, origin, result_id, now) == Err::<Transfer, DispatchError<Error>>(
            DispatchError::Pallet(Error::ResultStillDisputed),
        ),
{
}

} // verus!
