# smet

Authenticated encryption for files and byte strings with AES-256-GCM, verified with
Verus. Keys are drawn at random, derived from a password with Argon2id, or wrapped
under a key-encryption key; large inputs are encrypted as a stream of chunks, each
bound to its position and to the end of the stream.

Layout:

- `src/` — the verified library.
  - `primitives.rs` — the trusted boundary to `aes-gcm`, `argon2`, `rand` and
    `zeroize`, and the names of what AES-256-GCM and Argon2id compute.
  - `keys.rs` — keys, nonces, salts, the error type.
  - `message.rs` — whole-message encryption (random key, password, KEK wrapping).
  - `bytes.rs`, `chunks.rs` — big-endian encodings, chunking, per-chunk nonce and
    associated data.
  - `stream.rs` — the stream sealer and opener, and whole-buffer stream encryption
    and decryption with their round-trip and integrity contracts.
  - `format.rs` — the file header, wrapped-key file and password-file layouts, and
    the choice of key source from the command line.
- `app/` — the `oxismet` command-line tool: argument parsing, files, and the
  streaming loop over readers and writers.
- `tests/` — tests of the library.
