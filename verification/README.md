# ows_wallet

A verified core for local wallet tooling:

- `src/xrpl.rs` — the XRPL signer: `m/44'/144'/0'/0/{index}` paths, classic
  `r`-addresses (compressed secp256k1 key → SHA-256 → RIPEMD-160 →
  Base58Check with the Ripple alphabet), SHA512-half transaction signing with
  DER signatures.
- `src/discovery.rs` — selecting payable services from a page of the x402
  directory: testnet filtering, case-insensitive queries, USDC prices,
  one-line descriptions.
- `src/audit.rs` — audit log entries.
- `src/wallet.rs` — the decisions and output of the `wallet` commands.
- `src/crypto.rs`, `src/base58.rs`, `src/text.rs` — the hash, key and
  encoding calls into `sha2`, `ripemd`, `k256`, `bs58`, and the text helpers.

Everything under `src/` is checked by Verus. `app/` holds the I/O around it:
the audit log file, the HTTP client for the directory, and the command
handlers that use the vault and the signer crates of the wallet workspace.
