# vatix

The contract logic of the Vatix prediction-market protocol on Soroban, as a
Verus-verified library, with the Soroban contracts that host it.

## Layout

- `src/` — the verified library (`vatix`):
  - `treasury/` — protocol fees: collection by the market contract, admin
    withdrawals, the monotone per-token and global fee counters.
  - `outcome_token/` — YES/NO token balances per market; every supply is the
    sum of its holders' balances.
  - `resolution/` — proposed outcomes, their challenge window, and their
    finalization.
  - `market/` — markets and positions in versioned storage, withdrawal of
    unused collateral with its fee, settlement of resolved positions, and the
    oracle adapters' decisions.
  - `table.rs` — the key/value table that the contracts' storage is built on.
  - `address.rs` — account and contract identities as plain values.
- `app/` — the Soroban contracts: authorization, instance storage, token
  transfers, cross-contract calls and events around the library.
- `tests/` — tests of the library.

Each contract keeps an abstract view of its state; every entry point states
in its contract which error it returns on which inputs and what the state
becomes, and the invariants that every reachable state satisfies are proved
as lemmas next to the contracts.
