# umbra-relay

The verified core of a private, encrypted store-and-forward relay.

- `src/` is the library, verified with Verus:
  - `config.rs`: the operator configuration, its defaults, the source-IP
    allowlist, the snapshot period, and whether a bind resolved to loopback
    addresses only;
  - `services.rs`: which services run, private mode's refusal of
    non-loopback binds, and the onion-service configuration shown to the
    operator;
  - `admission.rs`: admission of accepted connections (allowlist, then a
    per-service cap on concurrent connections);
  - `spool.rs`: the encrypted spool's file framing, with proofs that what is
    written reads back;
  - `cli.rs`: the command line;
  - `text.rs`: string helpers.
- `app/` is the program around it: configuration file loading (TOML),
  name resolution, sockets and threads, key derivation and the AEAD of the
  messenger's core, file I/O, and signal handling.
- `tests/` exercises the library on concrete values.
