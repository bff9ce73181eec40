# clipcash

ClipCash turns video clips into NFTs on Soroban and notifies integrators of
events through signed webhooks. This crate holds the logic of both, verified
with Verus.

- `src/nft/` — the clips NFT contract as a state value and one method per
  entry point: minting under a backend Ed25519 signature (single and batch),
  approvals, transfers, burning, royalties (normalization with the platform
  share, quotes, payment by cumulative rounding, accrual and claims), and the
  admin's pause with a 24-hour timelock. Each method states exactly what it
  returns and how the state changes, keeps the state's well-formedness, and
  leaves the state untouched when it refuses a call. `laws.rs` proves the
  properties that hold across calls (a clip is minted once, a claim zeroes
  the balance, royalty payouts add up to the quote, and so on).
- `src/webhook.rs` — URL validation, HMAC-SHA256 payload signatures with a
  constant-time check, and the exponential retry schedule.
- `src/digest.rs`, `src/xdr.rs`, `src/address.rs`, `src/table.rs` — the
  hashing and signature primitives (from `sha2`, `hmac`, `hex` and
  `ed25519-dalek`), the XDR encodings the mint message is built from, ledger
  addresses as XDR bytes, and a small association table keyed by addresses.
- `app/` — the Soroban binding: it loads the state from ledger storage,
  checks authorizations, calls the verified model, then stores the state,
  publishes the events and performs the token transfers and code upgrades
  that the model asks for.
- `tests/` — the project's scenarios, run against the real outside crates.
