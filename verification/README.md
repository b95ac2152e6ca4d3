# isekai-util

Shared helpers for ISEKAI Link, as a library that is verified with Verus. Each function
states in its contract what it returns or changes, and what holds of the library as a whole
is stated and proved in public proof functions beside the functions it is about.

## Modules

- `acme` — ACME certificate issuance: which identifiers to order, the checks on a CSR, and
  the course of an issuance, of its account and of its challenges, each as a state machine
  that says what to do next and takes in what came of it.
- `dns` — finding the name servers of a host, and ensuring that a host has a record.
- `ip` — the text forms of IP addresses.
- `pop` — Proof-of-Possession primitives: RFC 7638 JWK thumbprints, Endpoint ID derivation,
  the canonical request string and ECDSA P-256 signature verification.
- `secure_fs` — the permissions of files and directories with key material.
- `text` — characters, substrings and ASCII case.

Functions marked `external_body` call other crates. Their contracts are not proved; the
comment above each says what is taken for granted.

## Layout

`src/` is the verified library, `tests/` its tests. `app/` is ordinary Rust around it: HTTP,
DNS, the challenge server and the file system. It runs the state machines of the library.

## Conventions

Never write key material without `secure_fs`. It creates files `0600` and refuses to widen
an existing mode.
