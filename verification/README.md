# myshelltool

The verified core of the myshelltool SSH / MCP desktop client, written in
Verus: every function in `src/` carries a `requires` / `ensures` contract that
Verus proves, and the public `proof fn`s state the library's laws (path
normalisation, approval policy, job and cache bookkeeping, tunnel and transfer
tables, the sync decisions, the SOCKS5 handshake, the session-key payload).

- `src/`: the library. Calls into outside crates (`uuid`, `chrono`,
  `serde_json`, `sha2`, `rand`) and a few `std` functions stand behind small
  `#[verifier::external_body]` wrappers whose contracts say what those
  functions do.
- `tests/`: the tests, run against the compiled library.
- `app/`: a small command line around the library (file I/O, serde
  derives); Verus does not read it.

Verify with `verus src/lib.rs` together with the outside crates above.
