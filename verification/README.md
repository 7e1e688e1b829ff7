# winter_realm

The game logic of a family of MultiversX smart contracts (WINTER staking,
resource generation, citizens, tools and an arena), written in Verus and
verified.

Each contract is a struct holding its storage. Each endpoint takes the
contract state and what the chain reports about the call (caller, payments,
block nonce, round, epoch or timestamp, NFT attributes) and returns either the
actions the chain must perform (transfers, mints, burns, NFT creation and
updates, token issues), with the state updated, or an error with the state
left as it was.

- `src/` — the verified library: `bytes` and `store` (byte strings and a
  keyed store), `esdt` (payments, actions, token issue state, errors),
  `tokens` (fixed names and prefixes), `attributes` (how a soldier's
  defense and attack are written and read back) and one module per contract.
- `tests/` — tests of every endpoint on concrete values.
- `app/` — the contracts as MultiversX contract traits: they read storage and
  call values, call the library, and write back and perform what it returns.
