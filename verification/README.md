# exec_server

The logic of a server that runs commands for a remote client, and of the client
side that goes with it, verified with Verus.

- `src/tls.rs`, `src/fingerprint.rs`, `src/error.rs`: a self-signed certificate,
  its SHA-256 fingerprint in hexadecimal, and a client that pins it.
- `src/transport.rs`: listen URLs, bearer tokens, and which requests are let in.
- `src/remote_workspace.rs`, `src/mirror.rs`: the remote directory of a workspace
  and the decisions of its upload.
- `src/text.rs`: what the other modules need of strings.
- `app/`: sockets, files, logs and the environment around the library.
- `tests/`: tests of the library, run with the real TLS stack.

Calls into other crates and into unspecified parts of the standard library stand
behind items marked `#[verifier::external_body]` or `assume_specification`. Each
says what it claims of the call.
