# battlechain

Verified game logic of a rounds-based battle chain, written in Verus.

- `src/battlechain.rs`: character NFTs and best-of-3/5/8 battles; a round is up to three
  turns fought from full hit points.
- `src/game_oracle.rs`: a staking oracle for game results, with a dispute period,
  governance-settled disputes, slashing, and query revenue shared with developers.
- `src/prediction_market.rs`: markets on battle outcomes, with pooled bets and
  proportional payouts less a platform fee.
- `src/assoc_map.rs`, `src/dispatch.rs`, `src/encoding.rs`, `src/per_thing.rs`: the
  storage maps, call origins and errors, SCALE encoding and BLAKE2-256 identifiers, and
  `Perbill`/`Permill` arithmetic that the pallets share.

Calls that move funds come in two steps: `plan_*` names the transfer a call needs (or why
it fails), and the call itself is committed with whether the currency made that transfer.
`app/` runs the calls against a currency this way.
