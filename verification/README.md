# droidfoodattestation

A keystore certificate post-processor. It replaces attestation certificate chains, and provisions
attestation keys, with the help of a backend that it talks to over gRPC.

- `src/` is the library, in Verus: what is asked of the keystore and of the backend, and what their
  answers come to. Every operation is a sequence of steps; a step says what to do next and is told
  what came of it. Certificates, digests and ciphers are OpenSSL's; `src/crypto.rs` and
  `src/x509.rs` say what is taken for granted about them, `src/text.rs`, `src/rpc.rs` and
  `src/request_id.rs` the same about the standard library, `reqwest` and `uuid`.
- `tests/` runs the library, with the real crates.
- `app/` is the service: binder interfaces, keystore calls, HTTP and protocol buffers. It takes the
  steps that the library names.

The proof functions whose names start with `law_` state what holds of the library as a whole, for
instance that a signed encoding is unambiguous, that a request is attempted three times at most,
that only sound key material is handed out, and that an operation which generated a response key
names it for release when it is over. Deleting the key that is named so is left to `app/`.
