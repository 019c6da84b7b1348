# grainlify

The decision logic of the Grainlify Soroban contracts as a Verus-verified
library, with a thin host adapter.

- `src/` — the verified library. Each module keeps its contract's storage as
  plain values (ledger addresses and symbols become 64-bit handles) and each
  entrypoint is a function from that state and its arguments to a new state
  and a result, with a contract stating both. Laws that relate several calls
  are public proof functions named `law_*`.
  - `core_contract` — admin and multisig-timelocked upgrades, versions,
    read-only mode, configuration snapshots with a two-step admin restore,
    invariant reports and health.
  - `multisig`, `governance`, `nonce`, `commit_reveal`, `monitoring`,
    `strict_mode` — the supporting engines of the core contract.
  - `program_escrow`, `payout_splits`, `claim_period`, `gas_optimization` —
    the program escrow's payout logic and helpers.
  - `view_facade` — escrow records and a fixed stand-in escrow.
  - `types`, `keyed`, `math` — shared handles, a small keyed store and
    arithmetic lemmas.
- `app/` — the Soroban side: handle tables, authorisation, token transfers,
  WASM installs and events around the library's functions.
- `tests/` — scenario tests of the library.

The only outside computation the library relies on is SHA-256, computed by
the Soroban host behind one trusted wrapper in `commit_reveal`.
