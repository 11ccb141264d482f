//! What can go wrong while TLS material is prepared.

use vstd::prelude::*;
use vstd::string::*;

verus! {

/// The error type of rcgen, carried through and shown.
#[verifier::external_type_specification]
#[verifier::external_body]
pub struct ExRcgenError(rcgen::Error);

/// The error type of rustls, carried through and shown.
#[verifier::external_type_specification]
#[verifier::external_body]
pub struct ExRustlsError(rustls::Error);

/// What `Display` of `rcgen::Error` writes.
pub uninterp spec fn rcgen_error_text(error: rcgen::Error) -> Seq<char>;

/// `Display` of `rcgen::Error` writes a text for each kind of error, with what
/// the error carries.
#[verifier::external_body]
fn show_rcgen_error(error: &rcgen::Error) -> (text: String)
    ensures
        text@ == rcgen_error_text(*error),
{
    format!("{}", error)
}

/// Whether `Display` of `rustls::Error` can write `text` for `error`.
pub uninterp spec fn rustls_error_shows(error: rustls::Error, text: Seq<char>) -> bool;

/// `Display` of `rustls::Error` writes a text for each kind of error, with what
/// the error carries. That can be an error of a cryptographic provider, which
/// rustls leaves to write itself, so it is not claimed that an error is always
/// written alike.
#[verifier::external_body]
fn show_rustls_error(error: &rustls::Error) -> (text: String)
    ensures
        rustls_error_shows(*error, text@),
{
    format!("{}", error)
}

/// Errors produced while preparing TLS material.
#[derive(Debug)]
pub enum ExecServerTlsError {
    /// The self-signed certificate could not be generated.
    CertificateGeneration(rcgen::Error),
    /// The server configuration could not be built.
    ServerConfig(rustls::Error),
    /// The client configuration could not be built.
    ClientConfig(rustls::Error),
    /// A text does not write a SHA-256 fingerprint. The message says why.
    InvalidFingerprint(String),
}

impl From<rcgen::Error> for ExecServerTlsError {
    fn from(cause: rcgen::Error) -> (error: ExecServerTlsError) {
        ExecServerTlsError::CertificateGeneration(cause)
    }
}

impl vstd::std_specs::convert::FromSpecImpl<rcgen::Error> for ExecServerTlsError {
    open spec fn obeys_from_spec() -> bool {
        true
    }

    open spec fn from_spec(cause: rcgen::Error) -> ExecServerTlsError {
        ExecServerTlsError::CertificateGeneration(cause)
    }
}

impl ExecServerTlsError {
    /// Whether `message` is one that the error can be shown with.
    pub open spec fn shows(self, message: Seq<char>) -> bool {
        match self {
            ExecServerTlsError::CertificateGeneration(cause) => message
                == "failed to generate self-signed certificate: "@ + rcgen_error_text(cause),
            ExecServerTlsError::ServerConfig(cause) => exists|text: Seq<char>| #[trigger]
                rustls_error_shows(cause, text) && message
                    == "failed to build rustls server config: "@ + text,
            ExecServerTlsError::ClientConfig(cause) => exists|text: Seq<char>| #[trigger]
                rustls_error_shows(cause, text) && message
                    == "failed to build rustls client config: "@ + text,
            ExecServerTlsError::InvalidFingerprint(reason) => message
                == "invalid pinned certificate fingerprint: "@ + reason@,
        }
    }

    /// The message to show.
    pub fn message(&self) -> (message: String)
        ensures
            self.shows(message@),
    {
        match self {
            ExecServerTlsError::CertificateGeneration(cause) => {
                let mut message = "failed to generate self-signed certificate: ".to_string();
                message.append(show_rcgen_error(cause).as_str());
                message
            },
            ExecServerTlsError::ServerConfig(cause) => {
                let mut message = "failed to build rustls server config: ".to_string();
                message.append(show_rustls_error(cause).as_str());
                message
            },
            ExecServerTlsError::ClientConfig(cause) => {
                let mut message = "failed to build rustls client config: ".to_string();
                message.append(show_rustls_error(cause).as_str());
                message
            },
            ExecServerTlsError::InvalidFingerprint(reason) => {
                let mut message = "invalid pinned certificate fingerprint: ".to_string();
                message.append(reason.as_str());
                message
            },
        }
    }
}

/// Each error is shown with what failed, then why.
pub proof fn tls_errors_are_shown_with_their_cause(error: ExecServerTlsError, message: Seq<char>)
    ensures
        error.shows(message) <==> match error {
            ExecServerTlsError::CertificateGeneration(cause) => message
                == "failed to generate self-signed certificate: "@ + rcgen_error_text(cause),
            ExecServerTlsError::ServerConfig(cause) => exists|text: Seq<char>| #[trigger]
                rustls_error_shows(cause, text) && message
                    == "failed to build rustls server config: "@ + text,
            ExecServerTlsError::ClientConfig(cause) => exists|text: Seq<char>| #[trigger]
                rustls_error_shows(cause, text) && message
                    == "failed to build rustls client config: "@ + text,
            ExecServerTlsError::InvalidFingerprint(reason) => message
                == "invalid pinned certificate fingerprint: "@ + reason@,
        },
{
}

} // verus!
