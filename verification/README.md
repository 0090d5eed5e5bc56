# tusdt

The contract logic of tUSDT, a collateralised stablecoin, in Verus: a vault that lends tUSDT against
staked alpha, an over-the-counter market for alpha, and the governance of the treasury. Every
contract is proved against an exact description of what each message returns and changes.

## How a message runs

A message cannot call the chain or another contract by itself. It takes the surroundings of the
call (`host::Context`) and the replies so far, and returns a `host::Step`: the next call to make,
or the outcome. The caller makes the call, appends the reply and asks again. State changes only
with a successful outcome, as a failed message is rolled back on the chain.

For each such message a `*_step` function says which call comes next or what the outcome is, and a
`*_next` function says what the state becomes.

## Layout

- `src/host.rs`, `src/peers.rs`: calls, replies, and the records of other contracts
- `src/account.rs`, `src/ratio.rs`, `src/fixed_point.rs`, `src/storage.rs`: accounts, 18-decimal
  ratios, scaled multiplication, keyed storage
- `src/ratio_laws.rs`: how close a rounded power of a ratio is to the exact one, and how it grows
- `src/otc.rs`, `src/otc_laws.rs`: the market
- `src/governance.rs`, `src/governance_laws.rs`, `src/governance_ledger.rs`: proposals, votes and
  releases, over `src/calendar.rs` (days of the month), `src/voting.rs` (voting power) and
  `src/merkle.rs` (proofs of a balance)
- `src/lending.rs`, `src/vault.rs`: interest, debt limits, and the records of a vault
- `src/vault_alpha.rs`, `src/vault_alpha_model.rs`, `src/vault_laws.rs`,
  `src/vault_flow_laws.rs`: the alpha vault
- `src/test_support.rs`: a mock of the chain extension
- `app/`: the chain side: decodes a message, reads the state, makes the calls, emits the events
  and keeps the state. It reads a price as `(price, committed_at)` and an auction as the five
  fields of `peers::AuctionRecord`, so the oracle and the auction contract must answer with these.

The functions named `law_*` state what holds across messages.

One thing is trusted: `merkle::hash_bytes`, which calls ink's BLAKE2x-256.
