# oracle-rs

Pieces of an Oracle database driver, verified with Verus: what the messages of a logon hold, what
the client makes of the server's answers, and the client-side bookkeeping of batches, pooled
sessions and cached statements.

## Layout

- `src/messages/` holds the CONNECT, REFUSE and O5LOGON authentication messages. `auth_model.rs`
  says over plain values what an authentication does; `auth.rs` does it; `auth_laws.rs` and
  `connect_laws.rs` state what holds of every exchange.
- `src/statement_cache.rs` is the statement cache with least-recently-used eviction, on top of
  `indexmap`; `statement_cache_laws.rs` states what holds of it.
- `src/batch.rs` and `src/drcp.rs` hold batches and session pooling options.
- `src/buffer/`, `src/packet.rs` and `src/hex_codec.rs` hold the wire formats; `buffer/laws.rs`
  states that what is read is what was written.
- `src/crypto.rs` holds the key derivation of the logon, on top of the RustCrypto crates.
- `app/` is the ordinary Rust around the library: it reads the process environment, and gives
  batch errors the error traits of the standard library.

Functions marked `#[verifier::external_body]` call other crates or the standard library; their
contracts are trusted, and each says what it claims.
