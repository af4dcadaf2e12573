# dsh_desktop

The verified core of the desktop shell's clipboard-image bridge and plugin
error registry, written in Verus.

- `src/clipboard.rs` – session key, HMAC request proofs, timestamp freshness,
  and the ledger of consumed nonces (single use within a five-second window,
  at most 256 remembered).
- `src/image_response.rs` – size limits and PNG `data:` URL for a clipboard image.
- `src/paste.rs` – the paste script injected into frames, with the session key spliced in.
- `src/hex.rs`, `src/decimal.rs`, `src/text.rs` – nonce hex decoding, decimal
  rendering, Unicode white space and trimming.
- `src/plugin_validation.rs` – plugin ids (package names), actions, messages.
- `src/plugin_registry.rs` – the bounded registry of plugin errors: loading,
  recording, clearing.
- `src/rate_limit.rs` – per-plugin and global limits on runtime error reports.
- `src/trusted.rs` – the calls into std and outside crates (base64, hmac/sha2,
  getrandom, image, serde_json, the clocks), each with the contract relied on.
- `app/` – locks, the blocking clipboard read (arboard, tokio), the registry
  file and its serde shapes.
