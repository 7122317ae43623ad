//! Verified game logic of a rounds-based battle chain: characters and battles,
//! a staking game-result oracle, and prediction markets on battle outcomes.

pub mod assoc_map;
pub mod encoding;
pub mod per_thing;
pub mod dispatch;
pub mod battlechain;
pub mod game_oracle;
pub mod prediction_market;
