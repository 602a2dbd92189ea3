# wou_id

The World of Unreal identity engine: player accounts, sign-in (email codes, OAuth, wallet
signatures, QR approval through Telegram and Discord), clans, the social graph, card trades
and a custodial asset ledger.

- `src/` is the library, verified with Verus. It holds the rules: the abuse ladders, code
  checks, account merges, sign-in plans, trade settlement, the asset ledger, clan tables,
  templates and the wallet signature checks. Calls into hashing, encoding, signature and
  randomness crates sit behind small trusted wrappers whose contracts are documented where
  they are declared.
- `app/` is the HTTP server around it (axum, Valkey through `redis`, `redb`, SMTP through
  `lettre`, provider and bot APIs through `reqwest`) and a small HTTP client. It moves bytes
  and carries out what the library decides.
- `tests/` exercises the library on concrete values.
