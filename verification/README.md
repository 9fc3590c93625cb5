# babel_protocol

The Babel Protocol library and its local node.

- `src/` is the library, verified with Verus: signed protocol events (the
  canonical signing payload, content hashing, Ed25519 verification, per-device
  replay protection), device keys and event signing, revision-specific
  consent receipts, the deterministic translation and proposal providers, and
  `NodeState`, which decides what every client event does to the
  demonstration room and what the node broadcasts.
- `src/payload.rs` proves that the signing payload decides every field of an
  event but its signature.
- `app/` is the node around the library: the Axum HTTP and WebSocket server,
  PostgreSQL persistence, the JSON shapes of the wire format, and the
  developer console (`babel-node console`).
- `tests/` runs the library on concrete values.

Hashing, Base64, Ed25519, UUIDs and the clock come from `sha2`, `base64`,
`ed25519-dalek`, `uuid` and `chrono`, each behind a small trusted function in
`src/crypto.rs`, `src/ids.rs` or `src/text.rs` whose contract states what the
crate does.
