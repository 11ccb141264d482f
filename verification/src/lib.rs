//! The logic of a remote execution server and of the client that mirrors its
//! workspace to it: certificate pinning, listen URLs, request authentication
//! and the mirroring of a working directory.

pub mod error;
pub mod fingerprint;
pub mod mirror;
pub mod remote_workspace;
pub mod text;
pub mod tls;
pub mod transport;
