# ugly

A Solana vanity-address generator with encrypted wallet storage. The library (`src/`) is
written in Verus: its functions carry `requires`/`ensures` contracts that Verus proves.
The program around it (`app/`) parses the command line, reads and writes files, prompts for
passwords, runs worker threads and reads the clock.

- `crypto/` — Base58 addresses, Ed25519 keypairs from OS randomness, prefix matching, and
  the wiping of key material (`zeroize`) once a worker is done with it.
- `storage/` — Argon2id key derivation, AES-256-GCM sealing, and the wallet file format
  (`"UGLY"`, version, salt, nonce, ciphertext of 104-byte entries). Writing then reading a
  file gives back its entries; appending adds exactly one entry.
- `config.rs`, `cli.rs` — validation of the command line.
- `engine.rs` — the generator's decisions: stopping, matching a batch, saving a match.
- `resource/throttle.rs` — the CPU throttle's sleep computation.
- `benchmark.rs` — choice of the fastest thread count.
- `calendar.rs`, `decrypt.rs`, `ui/` — UTC timestamps and the text shown to the user.

Cryptographic primitives come from `bs58`, `ed25519-dalek`, `argon2`, `aes-gcm`, `rand_core`;
the few functions that call them are trusted, and their contracts say what they rely on.
