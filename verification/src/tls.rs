//! TLS material for the WebSocket transport.
//!
//! The server makes a self-signed certificate and shows its SHA-256
//! fingerprint; a client pins that fingerprint and accepts no other
//! certificate. Host names and certificate authorities play no part.

use crate::error::ExecServerTlsError;
use crate::fingerprint;
use rustls::client::danger::HandshakeSignatureValid;
use rustls::client::danger::ServerCertVerified;
use rustls::client::danger::ServerCertVerifier;
use rustls::crypto::CryptoProvider;
use rustls::crypto::WebPkiSupportedAlgorithms;
use rustls::ClientConfig;
use rustls::DigitallySignedStruct;
use rustls::ServerConfig;
use rustls::SignatureScheme;
use rustls_pki_types::CertificateDer;
use rustls_pki_types::PrivateKeyDer;
use rustls_pki_types::ServerName;
use rustls_pki_types::UnixTime;
use std::sync::Arc;
use vstd::prelude::*;
use vstd::string::*;
use vstd::utf8::*;

verus! {

/// A certificate in DER, as rustls hands it to a verifier.
#[verifier::external_type_specification]
#[verifier::external_body]
pub struct ExCertificateDer<'a>(CertificateDer<'a>);

/// The name that a client asked for. No decision reads it.
#[verifier::external_type_specification]
#[verifier::external_body]
pub struct ExServerName<'a>(ServerName<'a>);

/// The time of a handshake. No decision reads it.
#[verifier::external_type_specification]
#[verifier::external_body]
pub struct ExUnixTime(UnixTime);

/// The token by which a verifier says that it accepts a certificate.
#[verifier::external_type_specification]
#[verifier::external_body]
pub struct ExServerCertVerified(ServerCertVerified);

/// The token by which a verifier says that it accepts a signature.
#[verifier::external_type_specification]
#[verifier::external_body]
pub struct ExHandshakeSignatureValid(HandshakeSignatureValid);

/// A handshake signature together with its scheme.
#[verifier::external_type_specification]
#[verifier::external_body]
pub struct ExDigitallySignedStruct(DigitallySignedStruct);

/// A TLS signature scheme.
#[verifier::external_type_specification]
#[verifier::external_body]
pub struct ExSignatureScheme(SignatureScheme);

/// The signature algorithms that a verifier may use.
#[verifier::external_type_specification]
#[verifier::external_body]
pub struct ExWebPkiSupportedAlgorithms(WebPkiSupportedAlgorithms);

/// The cryptography that rustls runs on.
#[verifier::external_type_specification]
#[verifier::external_body]
pub struct ExCryptoProvider(CryptoProvider);

/// The configuration of a TLS server.
#[verifier::external_type_specification]
#[verifier::external_body]
pub struct ExServerConfig(ServerConfig);

/// The configuration of a TLS client.
#[verifier::external_type_specification]
#[verifier::external_body]
pub struct ExClientConfig(ClientConfig);

/// A private key in DER, by its encoding.
pub enum PrivateKey {
    /// An RSA key in PKCS#1.
    Pkcs1(Vec<u8>),
    /// An elliptic curve key in SEC1.
    Sec1(Vec<u8>),
    /// Any key in PKCS#8.
    Pkcs8(Vec<u8>),
}

/// A private key as a mathematical value.
pub enum PrivateKeyModel {
    Pkcs1(Seq<u8>),
    Sec1(Seq<u8>),
    Pkcs8(Seq<u8>),
}

impl View for PrivateKey {
    type V = PrivateKeyModel;

    open spec fn view(&self) -> PrivateKeyModel {
        match self {
            PrivateKey::Pkcs1(der) => PrivateKeyModel::Pkcs1(der@),
            PrivateKey::Sec1(der) => PrivateKeyModel::Sec1(der@),
            PrivateKey::Pkcs8(der) => PrivateKeyModel::Pkcs8(der@),
        }
    }
}

impl PrivateKey {
    /// A second copy of the key.
    pub fn clone_key(&self) -> (copy: PrivateKey)
        ensures
            copy@ == self@,
            match self {
                PrivateKey::Pkcs1(der) => copy is Pkcs1 && copy->Pkcs1_0@ == der@,
                PrivateKey::Sec1(der) => copy is Sec1 && copy->Sec1_0@ == der@,
                PrivateKey::Pkcs8(der) => copy is Pkcs8 && copy->Pkcs8_0@ == der@,
            },
    {
        match self {
            PrivateKey::Pkcs1(der) => PrivateKey::Pkcs1(der.clone()),
            PrivateKey::Sec1(der) => PrivateKey::Sec1(der.clone()),
            PrivateKey::Pkcs8(der) => PrivateKey::Pkcs8(der.clone()),
        }
    }
}

/// A self-signed certificate with what is needed to serve it and to let
/// clients pin it.
pub struct SelfSignedTls {
    /// The certificate in DER.
    pub cert_der: Vec<u8>,
    /// The key that the certificate was signed with.
    pub key_der: PrivateKey,
    /// The SHA-256 digest of `cert_der`, which clients pin.
    pub fingerprint_sha256: [u8; 32],
}

impl SelfSignedTls {
    /// The fingerprint is that of the certificate.
    pub open spec fn wf(self) -> bool {
        self.fingerprint_sha256@ == fingerprint::sha256_digest(self.cert_der@)
    }

    /// The fingerprint in lower case hexadecimal, without separators.
    pub fn fingerprint_hex(&self) -> (hex: String)
        ensures
            hex@ == fingerprint::hex_text(self.fingerprint_sha256@),
    {
        fingerprint::hex_encode(self.fingerprint_sha256.as_slice())
    }
}

/// The names that a generated certificate is made out to.
pub open spec fn default_sans() -> Seq<Seq<char>> {
    seq!["localhost"@, "127.0.0.1"@, "::1"@]
}

/// Whether `certificate` and the PKCS#8 document `key` can come out of one call
/// of `rcgen::generate_simple_self_signed` for `names`.
pub uninterp spec fn self_signed_for(
    names: Seq<Seq<char>>,
    certificate: Seq<u8>,
    key: Seq<u8>,
) -> bool;

/// Whether generating a certificate for `names` can fail with this error.
pub uninterp spec fn generation_can_fail(names: Seq<Seq<char>>, error: rcgen::Error) -> bool;

/// `rcgen::generate_simple_self_signed` draws a key and signs a certificate for
/// `names` with it. The first part of the pair is the certificate in DER, the
/// second the key in PKCS#8. Nothing more is claimed: the key is random, and
/// the call may fail.
#[verifier::external_body]
fn self_signed_pair(names: Vec<String>) -> (pair: Result<(Vec<u8>, Vec<u8>), rcgen::Error>)
    ensures
        match pair {
            Ok((certificate, key)) => self_signed_for(names.deep_view(), certificate@, key@),
            Err(error) => generation_can_fail(names.deep_view(), error),
        },
{
    match rcgen::generate_simple_self_signed(names) {
        Ok(pair) => Ok((pair.cert.der().to_vec(), pair.signing_key.serialize_der())),
        Err(error) => Err(error),
    }
}

/// What becomes of a generated certificate and its PKCS#8 key, or of the
/// failure to generate them.
pub fn self_signed_tls(pair: Result<(Vec<u8>, Vec<u8>), rcgen::Error>) -> (tls: Result<
    SelfSignedTls,
    ExecServerTlsError,
>)
    ensures
        match pair {
            Ok((certificate, key)) => tls matches Ok(tls) && tls.wf() && tls.cert_der@
                == certificate@ && tls.key_der@ == PrivateKeyModel::Pkcs8(key@),
            Err(error) => tls == Err::<SelfSignedTls, _>(
                ExecServerTlsError::CertificateGeneration(error),
            ),
        },
{
    match pair {
        Ok((cert_der, key)) => {
            let fingerprint_sha256 = fingerprint::sha256(cert_der.as_slice());
            Ok(SelfSignedTls { cert_der, key_der: PrivateKey::Pkcs8(key), fingerprint_sha256 })
        },
        Err(error) => Err(ExecServerTlsError::from(error)),
    }
}

/// Generates a self-signed certificate for the loopback names.
pub fn generate_self_signed_tls() -> (tls: Result<SelfSignedTls, ExecServerTlsError>)
    ensures
        match tls {
            Ok(tls) => {
                &&& tls.wf()
                &&& tls.key_der@ matches PrivateKeyModel::Pkcs8(key) && self_signed_for(
                    default_sans(),
                    tls.cert_der@,
                    key,
                )
            },
            Err(error) => error matches ExecServerTlsError::CertificateGeneration(cause)
                && generation_can_fail(default_sans(), cause),
        },
        tls matches Ok(tls) ==> {
            &&& tls.fingerprint_sha256@ == fingerprint::sha256_digest(tls.cert_der@)
            &&& self_signed_for(
                seq!["localhost"@, "127.0.0.1"@, "::1"@],
                tls.cert_der@,
                tls.key_der->Pkcs8_0@,
            )
        },
{
    let mut sans: Vec<String> = Vec::new();
    sans.push("localhost".to_string());
    sans.push("127.0.0.1".to_string());
    sans.push("::1".to_string());
    assert(sans.deep_view() =~= default_sans());
    self_signed_tls(self_signed_pair(sans))
}

/// `CryptoProvider::install_default` makes rustls's ring provider the default of
/// the process, unless it has one already, and `CryptoProvider::get_default`
/// hands that default out. Which provider it is depends on the process, so
/// nothing is claimed of it.
#[verifier::external_body]
fn ensure_rustls_crypto_provider() -> Arc<CryptoProvider> {
    let _ = rustls::crypto::ring::default_provider().install_default();
    CryptoProvider::get_default().expect("a default provider was installed").clone()
}

/// What a server configuration holds.
pub struct ServerConfigModel {
    /// The cryptography that it runs on.
    pub provider: CryptoProvider,
    /// The certificates that it presents, each in DER, its own first.
    pub certificate_chain: Seq<Seq<u8>>,
    /// The key document that its signing key was loaded from.
    pub key: PrivateKeyModel,
    /// Whether it asks clients for a certificate.
    pub client_auth: bool,
    /// The protocols that it offers through ALPN, the preferred one first.
    pub alpn_protocols: Seq<Seq<u8>>,
}

/// What the server configuration `config` holds.
pub uninterp spec fn server_config_model(config: ServerConfig) -> ServerConfigModel;

/// Whether rustls can refuse to serve `certificate` with `key` on `provider` with
/// this error.
pub uninterp spec fn can_refuse_certificate(
    provider: CryptoProvider,
    certificate: Seq<u8>,
    key: PrivateKeyModel,
    error: rustls::Error,
) -> bool;

/// `ConfigBuilder::with_single_cert` makes a server configuration that presents
/// one certificate and signs with `key`. It asks for no client certificate and
/// offers no protocol yet. It fails if the provider supports no protocol
/// version, cannot load the key, or finds that the key is not that of the
/// certificate. When it fails is left open: loading a key can also fail for want
/// of random bytes.
#[verifier::external_body]
fn single_certificate_config(
    provider: Arc<CryptoProvider>,
    certificate: Vec<u8>,
    key: PrivateKey,
) -> (config: Result<ServerConfig, rustls::Error>)
    ensures
        match config {
            Ok(config) => server_config_model(config) == (ServerConfigModel {
                provider: *provider,
                certificate_chain: seq![certificate@],
                key: key@,
                client_auth: false,
                alpn_protocols: Seq::empty(),
            }),
            Err(error) => can_refuse_certificate(*provider, certificate@, key@, error),
        },
{
    let key = match key {
        PrivateKey::Pkcs1(der) => PrivateKeyDer::Pkcs1(der.into()),
        PrivateKey::Sec1(der) => PrivateKeyDer::Sec1(der.into()),
        PrivateKey::Pkcs8(der) => PrivateKeyDer::Pkcs8(der.into()),
    };
    ServerConfig::builder_with_provider(provider)
        .with_safe_default_protocol_versions()?
        .with_no_client_auth()
        .with_single_cert(vec![CertificateDer::from(certificate)], key)
}

/// The field `alpn_protocols` of `rustls::ServerConfig` is set; the rest of the
/// configuration stays as it is.
#[verifier::external_body]
fn set_server_alpn(config: &mut ServerConfig, protocols: Vec<Vec<u8>>)
    ensures
        server_config_model(*final(config)) == (ServerConfigModel {
            alpn_protocols: protocols.deep_view(),
            ..server_config_model(*old(config))
        }),
{
    config.alpn_protocols = protocols;
}

/// The ALPN name of HTTP/1.1, over which WebSocket connections are upgraded.
pub open spec fn alpn_http_1_1() -> Seq<u8> {
    "http/1.1".spec_bytes()
}

/// The one protocol that both ends offer.
fn websocket_alpn() -> (protocols: Vec<Vec<u8>>)
    ensures
        protocols.deep_view() == seq![alpn_http_1_1()],
{
    let mut protocols: Vec<Vec<u8>> = Vec::new();
    protocols.push("http/1.1".as_bytes_vec());
    assert(protocols.deep_view() =~= seq![alpn_http_1_1()]) by {
        assert(protocols@[0].deep_view() =~= protocols@[0]@);
    }
    protocols
}

/// What building a server configuration on `provider` gives: a server that
/// presents `certificate`, signs with `key`, asks for no client certificate and
/// offers HTTP/1.1 alone, or the error with which rustls refuses.
pub open spec fn server_config_built(
    provider: CryptoProvider,
    certificate: Seq<u8>,
    key: PrivateKeyModel,
    config: Result<Arc<ServerConfig>, ExecServerTlsError>,
) -> bool {
    match config {
        Ok(config) => server_config_model(*config) == (ServerConfigModel {
            provider,
            certificate_chain: seq![certificate],
            key,
            client_auth: false,
            alpn_protocols: seq![alpn_http_1_1()],
        }),
        Err(ExecServerTlsError::ServerConfig(error)) => can_refuse_certificate(
            provider,
            certificate,
            key,
            error,
        ),
        Err(_) => false,
    }
}

/// What becomes of a server configuration that rustls has made, or of its
/// refusal to make one: HTTP/1.1 is offered through ALPN, and nothing else
/// changes.
pub fn finish_server_config(made: Result<ServerConfig, rustls::Error>) -> (config: Result<
    Arc<ServerConfig>,
    ExecServerTlsError,
>)
    ensures
        match made {
            Ok(made) => config matches Ok(config) && server_config_model(*config) == (
            ServerConfigModel {
                alpn_protocols: seq![alpn_http_1_1()],
                ..server_config_model(made)
            }),
            Err(error) => config == Err::<Arc<ServerConfig>, _>(
                ExecServerTlsError::ServerConfig(error),
            ),
        },
{
    match made {
        Ok(made) => {
            let mut config = made;
            set_server_alpn(&mut config, websocket_alpn());
            Ok(Arc::new(config))
        },
        Err(error) => Err(ExecServerTlsError::ServerConfig(error)),
    }
}

/// Builds the configuration of a server that presents `cert_der`, on a given
/// provider.
pub fn build_server_config_on(
    provider: Arc<CryptoProvider>,
    cert_der: Vec<u8>,
    key_der: PrivateKey,
) -> (config: Result<Arc<ServerConfig>, ExecServerTlsError>)
    ensures
        server_config_built(*provider, cert_der@, key_der@, config),
{
    finish_server_config(single_certificate_config(provider, cert_der, key_der))
}

/// Builds the configuration of a server that presents `cert_der`, asks for no
/// client certificate and offers HTTP/1.1 through ALPN, on the provider of the
/// process.
pub fn build_server_config(cert_der: Vec<u8>, key_der: PrivateKey) -> (config: Result<
    Arc<ServerConfig>,
    ExecServerTlsError,
>)
    ensures
        exists|provider: CryptoProvider| #[trigger]
            server_config_built(provider, cert_der@, key_der@, config),
{
    build_server_config_on(ensure_rustls_crypto_provider(), cert_der, key_der)
}

/// A server that is ready to accept TLS connections.
pub struct TlsServer {
    /// Its configuration.
    pub config: Arc<ServerConfig>,
    /// The fingerprint that clients have to pin, in hexadecimal.
    pub fingerprint: String,
}

impl TlsServer {
    /// The server presents one certificate and offers HTTP/1.1 alone, and
    /// `fingerprint` writes the digest of that certificate.
    pub open spec fn wf(self) -> bool {
        let model = server_config_model(*self.config);
        let digest = fingerprint::sha256_digest(model.certificate_chain[0]);
        &&& model.certificate_chain.len() == 1
        &&& !model.client_auth
        &&& model.alpn_protocols == seq![alpn_http_1_1()]
        &&& self.fingerprint@ == fingerprint::hex_text(digest)
        &&& fingerprint::fingerprint_value(self.fingerprint@) == Some(digest)
    }
}

/// The configuration of a server that was set up, or the error.
pub open spec fn config_of(server: Result<TlsServer, ExecServerTlsError>) -> Result<
    Arc<ServerConfig>,
    ExecServerTlsError,
> {
    match server {
        Ok(server) => Ok(server.config),
        Err(error) => Err(error),
    }
}

/// Sets up a TLS server from a generated certificate, or from the failure to
/// generate one.
pub fn tls_server(tls: Result<SelfSignedTls, ExecServerTlsError>) -> (server: Result<
    TlsServer,
    ExecServerTlsError,
>)
    ensures
        match tls {
            Ok(tls) => {
                &&& exists|provider: CryptoProvider| #[trigger]
                    server_config_built(provider, tls.cert_der@, tls.key_der@, config_of(server))
                &&& server matches Ok(server) ==> server.fingerprint@ == fingerprint::hex_text(
                    tls.fingerprint_sha256@,
                )
                &&& tls.wf() ==> (server matches Ok(server) ==> server.wf())
            },
            Err(error) => server == Err::<TlsServer, _>(error),
        },
{
    match tls {
        Ok(tls) => {
            let fingerprint = tls.fingerprint_hex();
            proof {
                fingerprint::fingerprint_round_trip(tls.fingerprint_sha256@);
            }
            let config = build_server_config(tls.cert_der, tls.key_der);
            let ghost built = config;
            let server = match config {
                Ok(config) => Ok(TlsServer { config, fingerprint }),
                Err(error) => Err(error),
            };
            assert(config_of(server) == built);
            server
        },
        Err(error) => Err(error),
    }
}

/// Generates a certificate and sets up a TLS server that presents it.
pub fn prepare_tls_server() -> (server: Result<TlsServer, ExecServerTlsError>)
    ensures
        match server {
            Ok(server) => {
                let model = server_config_model(*server.config);
                &&& server.wf()
                &&& model.key matches PrivateKeyModel::Pkcs8(key) && self_signed_for(
                    default_sans(),
                    model.certificate_chain[0],
                    key,
                )
            },
            Err(ExecServerTlsError::CertificateGeneration(cause)) => generation_can_fail(
                default_sans(),
                cause,
            ),
            Err(ExecServerTlsError::ServerConfig(cause)) => exists|
                provider: CryptoProvider,
                certificate: Seq<u8>,
                key: Seq<u8>,
            |
                self_signed_for(default_sans(), certificate, key) && #[trigger]
                can_refuse_certificate(
                    provider,
                    certificate,
                    PrivateKeyModel::Pkcs8(key),
                    cause,
                ),
            Err(_) => false,
        },
        server matches Ok(server) ==> {
            let model = server_config_model(*server.config);
            &&& model.certificate_chain.len() == 1
            &&& self_signed_for(
                seq!["localhost"@, "127.0.0.1"@, "::1"@],
                model.certificate_chain[0],
                model.key->Pkcs8_0,
            )
            &&& server.fingerprint@ == fingerprint::hex_text(
                fingerprint::sha256_digest(model.certificate_chain[0]),
            )
        },
{
    tls_server(generate_self_signed_tls())
}

/// The bytes of a certificate that rustls hands over.
pub uninterp spec fn certificate_content(certificate: &CertificateDer<'_>) -> Seq<u8>;

/// `CertificateDer::as_ref` gives the bytes of the certificate.
#[verifier::external_body]
fn certificate_bytes<'a>(certificate: &'a CertificateDer<'_>) -> (bytes: &'a [u8])
    ensures
        bytes@ == certificate_content(certificate),
{
    certificate.as_ref()
}

/// The message of an error that rustls has no more special kind for.
pub uninterp spec fn general_error_message(error: rustls::Error) -> Option<Seq<char>>;

/// `rustls::Error::General` is an error of no special kind, with a message.
#[verifier::external_body]
fn general_error(message: String) -> (error: rustls::Error)
    ensures
        general_error_message(error) == Some(message@),
{
    rustls::Error::General(message)
}

/// `ServerCertVerified::assertion` makes the token by which a verifier accepts.
/// There is only one such token.
pub assume_specification[ ServerCertVerified::assertion ]() -> ServerCertVerified;

/// What `rustls::crypto::verify_tls12_signature` finds.
pub uninterp spec fn tls12_signature_check(
    message: Seq<u8>,
    certificate: Seq<u8>,
    signature: DigitallySignedStruct,
    algorithms: WebPkiSupportedAlgorithms,
) -> Result<HandshakeSignatureValid, rustls::Error>;

/// `rustls::crypto::verify_tls12_signature` checks a TLS 1.2 handshake signature
/// with the public key of the certificate. What it finds depends on its
/// arguments alone.
pub assume_specification[ rustls::crypto::verify_tls12_signature ](
    message: &[u8],
    cert: &CertificateDer<'_>,
    dss: &DigitallySignedStruct,
    supported_schemes: &WebPkiSupportedAlgorithms,
) -> (found: Result<HandshakeSignatureValid, rustls::Error>)
    ensures
        found == tls12_signature_check(
            message@,
            certificate_content(cert),
            *dss,
            *supported_schemes,
        ),
;

/// The scheme of a handshake signature.
pub uninterp spec fn signature_scheme(signature: DigitallySignedStruct) -> SignatureScheme;

/// The field `scheme` of `DigitallySignedStruct` is read.
#[verifier::external_body]
fn scheme_of(signature: &DigitallySignedStruct) -> (scheme: SignatureScheme)
    ensures
        scheme == signature_scheme(*signature),
{
    signature.scheme
}

/// The number that TLS gives to a signature scheme.
pub uninterp spec fn scheme_code(scheme: SignatureScheme) -> u16;

/// `u16::from` gives the number of a `SignatureScheme`.
#[verifier::external_body]
fn code_of(scheme: SignatureScheme) -> (code: u16)
    ensures
        code == scheme_code(scheme),
{
    u16::from(scheme)
}

/// `==` on `SignatureScheme`, which is derived, compares the variants and the
/// number that a variant for unknown schemes carries: nothing else is in a
/// scheme.
#[verifier::external_body]
fn same_scheme(a: SignatureScheme, b: SignatureScheme) -> (same: bool)
    ensures
        same == (a == b),
{
    a == b
}

/// The signature schemes of `algorithms`, the preferred one first, each with the
/// number of algorithms that there are for it.
pub uninterp spec fn algorithm_counts(algorithms: WebPkiSupportedAlgorithms) -> Seq<
    (SignatureScheme, usize),
>;

/// The field `mapping` of `WebPkiSupportedAlgorithms` is read: each signature
/// scheme, and how many algorithms it has.
#[verifier::external_body]
fn count_algorithms(algorithms: &WebPkiSupportedAlgorithms) -> (counts: Vec<
    (SignatureScheme, usize),
>)
    ensures
        counts@ == algorithm_counts(*algorithms),
{
    algorithms.mapping.iter().map(|item| (item.0, item.1.len())).collect()
}

/// Whether TLS 1.3 allows the signature scheme with the number `code`. The high
/// byte of an older scheme names a hash function, and those up to 3 are too weak;
/// the low byte names a kind of signature, and those up to 2 are withdrawn.
pub open spec fn tls13_allows(code: u16) -> bool {
    code / 256 > 3 && code % 256 > 2
}

/// Whether the first entry of `counts` for `scheme` has an algorithm, or there is
/// no such entry.
pub open spec fn first_entry_has_algorithm(
    counts: Seq<(SignatureScheme, usize)>,
    scheme: SignatureScheme,
) -> bool
    decreases counts.len(),
{
    if counts.len() == 0 {
        true
    } else if counts[0].0 == scheme {
        counts[0].1 > 0
    } else {
        first_entry_has_algorithm(counts.drop_first(), scheme)
    }
}

/// Whether rustls can answer for a TLS 1.3 signature with `scheme`: the scheme is
/// not allowed, or no algorithm is missing where the first one is taken.
pub open spec fn scheme_is_usable(
    counts: Seq<(SignatureScheme, usize)>,
    scheme: SignatureScheme,
) -> bool {
    tls13_allows(scheme_code(scheme)) ==> first_entry_has_algorithm(counts, scheme)
}

/// Whether rustls can answer for a TLS 1.3 signature with `scheme`.
fn check_scheme(counts: &Vec<(SignatureScheme, usize)>, scheme: SignatureScheme) -> (usable: bool)
    ensures
        usable == scheme_is_usable(counts@, scheme),
{
    let code: u16 = code_of(scheme);
    if code / 256 <= 3 || code % 256 <= 2 {
        return true;
    }
    let mut i: usize = 0;
    assert(counts@.skip(0) =~= counts@);
    while i < counts.len()
        invariant
            i <= counts.len(),
            tls13_allows(scheme_code(scheme)),
            first_entry_has_algorithm(counts@, scheme) == first_entry_has_algorithm(
                counts@.skip(i as int),
                scheme,
            ),
        decreases counts.len() - i,
    {
        if same_scheme(counts[i].0, scheme) {
            return counts[i].1 > 0;
        }
        assert(counts@.skip(i as int).drop_first() =~= counts@.skip(i + 1));
        i += 1;
    }
    true
}

/// What `rustls::crypto::verify_tls13_signature` finds.
pub uninterp spec fn tls13_signature_check(
    message: Seq<u8>,
    certificate: Seq<u8>,
    signature: DigitallySignedStruct,
    algorithms: WebPkiSupportedAlgorithms,
) -> Result<HandshakeSignatureValid, rustls::Error>;

/// `rustls::crypto::verify_tls13_signature` checks a TLS 1.3 handshake signature
/// with the public key of the certificate. What it finds depends on its
/// arguments alone. If TLS 1.3 allows the scheme of the signature, the first entry
/// for it is looked up and its first algorithm taken; if that entry has none, the
/// call panics.
pub assume_specification[ rustls::crypto::verify_tls13_signature ](
    msg: &[u8],
    cert: &CertificateDer<'_>,
    dss: &DigitallySignedStruct,
    supported_schemes: &WebPkiSupportedAlgorithms,
) -> (found: Result<HandshakeSignatureValid, rustls::Error>)
    requires
        scheme_is_usable(algorithm_counts(*supported_schemes), signature_scheme(*dss)),
    ensures
        found == tls13_signature_check(msg@, certificate_content(cert), *dss, *supported_schemes),
;

/// The signature schemes of `algorithms`, the preferred one first.
pub open spec fn supported_scheme_list(algorithms: WebPkiSupportedAlgorithms) -> Seq<
    SignatureScheme,
> {
    algorithm_counts(algorithms).map_values(|entry: (SignatureScheme, usize)| entry.0)
}

/// `WebPkiSupportedAlgorithms::supported_schemes` lists the signature schemes of
/// the field `mapping`, in their order.
pub assume_specification[ WebPkiSupportedAlgorithms::supported_schemes ](
    algorithms: &WebPkiSupportedAlgorithms,
) -> (schemes: Vec<SignatureScheme>)
    ensures
        schemes@ == supported_scheme_list(*algorithms),
;

/// The signature verification algorithms of a provider.
pub uninterp spec fn provider_algorithms(provider: CryptoProvider) -> WebPkiSupportedAlgorithms;

/// The field `signature_verification_algorithms` of `CryptoProvider` is read.
#[verifier::external_body]
fn signature_algorithms(provider: &CryptoProvider) -> (algorithms: WebPkiSupportedAlgorithms)
    ensures
        algorithms == provider_algorithms(*provider),
{
    provider.signature_verification_algorithms
}

/// A verifier that accepts exactly the server certificate with a given SHA-256
/// fingerprint. It looks neither at host names nor at certificate chains; the
/// handshake signature is checked as usual.
#[derive(Debug)]
pub struct FingerprintPinnedVerifier {
    expected_fingerprint: [u8; 32],
    supported_algs: WebPkiSupportedAlgorithms,
}

/// What is said of a certificate that is not the pinned one.
pub open spec fn mismatch_message() -> Seq<char> {
    "server certificate fingerprint does not match pinned value"@
}

/// What is said of a TLS 1.3 handshake signature whose scheme the provider lists
/// without an algorithm.
pub open spec fn no_algorithm_message() -> Seq<char> {
    "no algorithm for the signature scheme of the handshake"@
}

impl FingerprintPinnedVerifier {
    /// The pinned fingerprint.
    pub closed spec fn expected(self) -> Seq<u8> {
        self.expected_fingerprint@
    }

    /// The algorithms for the handshake signature.
    pub closed spec fn algorithms(self) -> WebPkiSupportedAlgorithms {
        self.supported_algs
    }

    /// Whether `certificate` is the pinned one.
    pub open spec fn accepts(self, certificate: Seq<u8>) -> bool {
        fingerprint::sha256_digest(certificate) == self.expected()
    }

    /// A verifier for `expected_fingerprint` on a given provider.
    pub fn on_provider(provider: &CryptoProvider, expected_fingerprint: [u8; 32]) -> (verifier:
        FingerprintPinnedVerifier)
        ensures
            verifier.expected() == expected_fingerprint@,
            verifier.algorithms() == provider_algorithms(*provider),
    {
        FingerprintPinnedVerifier {
            expected_fingerprint,
            supported_algs: signature_algorithms(provider),
        }
    }

    /// A verifier for `expected_fingerprint` on the provider of the process.
    pub fn new(expected_fingerprint: [u8; 32]) -> (verifier: FingerprintPinnedVerifier)
        ensures
            verifier.expected() == expected_fingerprint@,
            exists|provider: CryptoProvider|
                verifier.algorithms() == #[trigger] provider_algorithms(provider),
    {
        let provider = ensure_rustls_crypto_provider();
        FingerprintPinnedVerifier::on_provider(&provider, expected_fingerprint)
    }

    /// Accepts or refuses a certificate by the SHA-256 digest of its DER form.
    pub fn check_digest(&self, actual: &[u8; 32]) -> (accepted: bool)
        ensures
            accepted == (actual@ == self.expected()),
    {
        fingerprint::constant_time_eq(actual, &self.expected_fingerprint)
    }
}

impl ServerCertVerifier for FingerprintPinnedVerifier {
    fn verify_server_cert(
        &self,
        end_entity: &CertificateDer<'_>,
        _intermediates: &[CertificateDer<'_>],
        _server_name: &ServerName<'_>,
        _ocsp_response: &[u8],
        _now: UnixTime,
    ) -> (verdict: Result<ServerCertVerified, rustls::Error>)
        ensures
            match verdict {
                Ok(_) => self.accepts(certificate_content(end_entity)),
                Err(error) => {
                    &&& !self.accepts(certificate_content(end_entity))
                    &&& general_error_message(error) == Some(mismatch_message())
                },
            },
            verdict is Ok <==> fingerprint::sha256_digest(certificate_content(end_entity))
                == self.expected(),
    {
        let actual = fingerprint::sha256(certificate_bytes(end_entity));
        if self.check_digest(&actual) {
            Ok(ServerCertVerified::assertion())
        } else {
            Err(
                general_error(
                    "server certificate fingerprint does not match pinned value".to_string(),
                ),
            )
        }
    }

    fn verify_tls12_signature(
        &self,
        message: &[u8],
        cert: &CertificateDer<'_>,
        dss: &DigitallySignedStruct,
    ) -> (found: Result<HandshakeSignatureValid, rustls::Error>)
        ensures
            found == tls12_signature_check(
                message@,
                certificate_content(cert),
                *dss,
                self.algorithms(),
            ),
    {
        rustls::crypto::verify_tls12_signature(message, cert, dss, &self.supported_algs)
    }

    fn verify_tls13_signature(
        &self,
        message: &[u8],
        cert: &CertificateDer<'_>,
        dss: &DigitallySignedStruct,
    ) -> (found: Result<HandshakeSignatureValid, rustls::Error>)
        ensures
            if scheme_is_usable(algorithm_counts(self.algorithms()), signature_scheme(*dss)) {
                found == tls13_signature_check(
                    message@,
                    certificate_content(cert),
                    *dss,
                    self.algorithms(),
                )
            } else {
                found matches Err(error) && general_error_message(error) == Some(
                    no_algorithm_message(),
                )
            },
    {
        let counts = count_algorithms(&self.supported_algs);
        if check_scheme(&counts, scheme_of(dss)) {
            rustls::crypto::verify_tls13_signature(message, cert, dss, &self.supported_algs)
        } else {
            Err(general_error("no algorithm for the signature scheme of the handshake".to_string()))
        }
    }

    fn supported_verify_schemes(&self) -> (schemes: Vec<SignatureScheme>)
        ensures
            schemes@ == supported_scheme_list(self.algorithms()),
    {
        self.supported_algs.supported_schemes()
    }
}

/// What a pinned client configuration holds.
pub struct ClientConfigModel {
    /// The cryptography that it runs on.
    pub provider: CryptoProvider,
    /// The verifier that decides on server certificates.
    pub verifier: FingerprintPinnedVerifier,
    /// Whether it can answer a request for a client certificate.
    pub client_auth: bool,
    /// The protocols that it offers through ALPN, the preferred one first.
    pub alpn_protocols: Seq<Seq<u8>>,
}

/// What the pinned client configuration `config` holds.
pub uninterp spec fn client_config_model(config: ClientConfig) -> ClientConfigModel;

/// The error with which rustls refuses to build a client on `provider`, if it
/// does.
pub uninterp spec fn client_refusal(provider: CryptoProvider) -> Option<rustls::Error>;

/// `ConfigBuilder::with_safe_default_protocol_versions` refuses a provider whose
/// cipher suites and key exchange groups allow no connection; what it says
/// depends on the provider alone. Then
/// `DangerousClientConfigBuilder::with_custom_certificate_verifier` and
/// `ConfigBuilder::with_no_client_auth` make a client configuration that leaves
/// server certificates to `verifier`, has no certificate of its own and offers
/// no protocol yet.
#[verifier::external_body]
fn custom_verifier_config(
    provider: Arc<CryptoProvider>,
    verifier: Arc<FingerprintPinnedVerifier>,
) -> (config: Result<ClientConfig, rustls::Error>)
    ensures
        match config {
            Ok(config) => client_refusal(*provider) is None && client_config_model(config) == (
            ClientConfigModel {
                provider: *provider,
                verifier: *verifier,
                client_auth: false,
                alpn_protocols: Seq::empty(),
            }),
            Err(error) => client_refusal(*provider) == Some(error),
        },
{
    Ok(ClientConfig::builder_with_provider(provider)
        .with_safe_default_protocol_versions()?
        .dangerous()
        .with_custom_certificate_verifier(verifier)
        .with_no_client_auth())
}

/// The field `alpn_protocols` of `rustls::ClientConfig` is set; the rest of the
/// configuration stays as it is.
#[verifier::external_body]
fn set_client_alpn(config: &mut ClientConfig, protocols: Vec<Vec<u8>>)
    ensures
        client_config_model(*final(config)) == (ClientConfigModel {
            alpn_protocols: protocols.deep_view(),
            ..client_config_model(*old(config))
        }),
{
    config.alpn_protocols = protocols;
}

/// What building a pinned client configuration on `provider` gives: a client that
/// accepts only the certificate with `fingerprint`, checks signatures with the
/// algorithms of the provider, has no certificate of its own and offers HTTP/1.1
/// alone, or the error with which rustls refuses the provider.
pub open spec fn pinned_client_built(
    provider: CryptoProvider,
    fingerprint: Seq<u8>,
    config: Result<Arc<ClientConfig>, ExecServerTlsError>,
) -> bool {
    match config {
        Ok(config) => {
            let model = client_config_model(*config);
            &&& client_refusal(provider) is None
            &&& model.provider == provider
            &&& model.verifier.expected() == fingerprint
            &&& model.verifier.algorithms() == provider_algorithms(provider)
            &&& !model.client_auth
            &&& model.alpn_protocols == seq![alpn_http_1_1()]
        },
        Err(ExecServerTlsError::ClientConfig(error)) => client_refusal(provider) == Some(error),
        Err(_) => false,
    }
}

/// Builds the configuration of a client that accepts only the certificate with
/// `expected_fingerprint`, on a given provider.
pub fn build_pinned_client_config_on(
    provider: Arc<CryptoProvider>,
    expected_fingerprint: [u8; 32],
) -> (config: Result<Arc<ClientConfig>, ExecServerTlsError>)
    ensures
        pinned_client_built(*provider, expected_fingerprint@, config),
{
    let verifier = FingerprintPinnedVerifier::on_provider(&provider, expected_fingerprint);
    match custom_verifier_config(provider, Arc::new(verifier)) {
        Ok(made) => {
            let mut config = made;
            set_client_alpn(&mut config, websocket_alpn());
            Ok(Arc::new(config))
        },
        Err(error) => Err(ExecServerTlsError::ClientConfig(error)),
    }
}

/// Builds the configuration of a client that accepts only the certificate with
/// `expected_fingerprint` and offers HTTP/1.1 through ALPN, on the provider of
/// the process.
pub fn build_pinned_client_config(expected_fingerprint: [u8; 32]) -> (config: Result<
    Arc<ClientConfig>,
    ExecServerTlsError,
>)
    ensures
        exists|provider: CryptoProvider| #[trigger]
            pinned_client_built(provider, expected_fingerprint@, config),
{
    build_pinned_client_config_on(ensure_rustls_crypto_provider(), expected_fingerprint)
}

/// A client that pins what the server shows accepts the certificate that the
/// server presents, and a certificate with another digest it refuses.
pub proof fn pinned_client_accepts_only_the_server(
    server: TlsServer,
    config: ClientConfig,
    certificate: Seq<u8>,
)
    requires
        server.wf(),
        fingerprint::fingerprint_value(server.fingerprint@) == Some(
            client_config_model(config).verifier.expected(),
        ),
    ensures
        ({
            let presented = server_config_model(*server.config).certificate_chain[0];
            let verifier = client_config_model(config).verifier;
            &&& verifier.accepts(presented)
            &&& verifier.accepts(certificate) <==> fingerprint::sha256_digest(certificate)
                == fingerprint::sha256_digest(presented)
        }),
{
}

/// Both ends offer one and the same protocol.
pub proof fn ends_agree_on_the_protocol(server: TlsServer, config: ClientConfig)
    requires
        server.wf(),
        client_config_model(config).alpn_protocols == seq![alpn_http_1_1()],
    ensures
        server_config_model(*server.config).alpn_protocols == client_config_model(
            config,
        ).alpn_protocols,
{
}

/// A certificate is generated for the three names of the loopback host, in this
/// order.
pub proof fn certificates_are_made_out_to_the_loopback_names(certificate: Seq<u8>, key: Seq<u8>)
    ensures
        default_sans().len() == 3,
        default_sans()[0] == "localhost"@,
        default_sans()[1] == "127.0.0.1"@,
        default_sans()[2] == "::1"@,
        self_signed_for(default_sans(), certificate, key) <==> self_signed_for(
            seq!["localhost"@, "127.0.0.1"@, "::1"@],
            certificate,
            key,
        ),
{
}

/// The one protocol that is offered is `http/1.1`, in ASCII.
pub proof fn offered_protocol_is_http_1_1()
    ensures
        alpn_http_1_1() == seq![104u8, 116, 116, 112, 47, 49, 46, 49],
{
    reveal_strlit("http/1.1");
    assert(is_ascii_chars("http/1.1"@));
    is_ascii_chars_encode_utf8("http/1.1"@);
    assert(alpn_http_1_1() == encode_utf8("http/1.1"@));
    assert forall|i: int| 0 <= i < 8 implies #[trigger] alpn_http_1_1()[i] == "http/1.1"@[i] as u8 by {
        assert("http/1.1"@[i] as u8 == encode_utf8("http/1.1"@)[i]);
    }
    assert(alpn_http_1_1() =~= seq![104u8, 116, 116, 112, 47, 49, 46, 49]);
}

/// Generated material is well-formed exactly if its fingerprint is the digest of
/// its own certificate.
pub proof fn fingerprint_is_that_of_the_certificate(tls: SelfSignedTls)
    ensures
        tls.wf() <==> tls.fingerprint_sha256@ == fingerprint::sha256_digest(tls.cert_der@),
{
}

/// A key is modelled by its encoding and its bytes.
pub proof fn keys_keep_their_encoding(key: PrivateKey)
    ensures
        key@ == match key {
            PrivateKey::Pkcs1(der) => PrivateKeyModel::Pkcs1(der@),
            PrivateKey::Sec1(der) => PrivateKeyModel::Sec1(der@),
            PrivateKey::Pkcs8(der) => PrivateKeyModel::Pkcs8(der@),
        },
{
}

/// A server configuration that was built runs on the provider, presents the
/// certificate alone, signs with the key, asks clients for no certificate and
/// offers `http/1.1` alone. If none was built, the error is one with which rustls
/// can refuse that certificate with that key.
pub proof fn server_presents_what_it_was_given(
    provider: CryptoProvider,
    certificate: Seq<u8>,
    key: PrivateKeyModel,
    config: Result<Arc<ServerConfig>, ExecServerTlsError>,
)
    requires
        server_config_built(provider, certificate, key, config),
    ensures
        config is Ok ==> {
            let model = server_config_model(*config->Ok_0);
            &&& model.provider == provider
            &&& model.certificate_chain == seq![certificate]
            &&& model.key == key
            &&& !model.client_auth
            &&& model.alpn_protocols == seq![seq![104u8, 116, 116, 112, 47, 49, 46, 49]]
        },
        config is Err ==> config->Err_0 is ServerConfig && can_refuse_certificate(
            provider,
            certificate,
            key,
            config->Err_0->ServerConfig_0,
        ),
{
    offered_protocol_is_http_1_1();
}

/// A server that was set up presents one certificate, asks clients for none, offers
/// `http/1.1` alone, and shows the digest of its certificate in hexadecimal. A
/// client that reads what is shown gets that digest.
pub proof fn server_shows_the_digest_of_its_certificate(server: TlsServer)
    requires
        server.wf(),
    ensures
        ({
            let model = server_config_model(*server.config);
            let digest = fingerprint::sha256_digest(model.certificate_chain[0]);
            &&& model.certificate_chain.len() == 1
            &&& !model.client_auth
            &&& model.alpn_protocols == seq![seq![104u8, 116, 116, 112, 47, 49, 46, 49]]
            &&& server.fingerprint@ == fingerprint::hex_text(digest)
            &&& fingerprint::fingerprint_value(server.fingerprint@) == Some(digest)
        }),
{
    offered_protocol_is_http_1_1();
}

/// The configuration of a server that was set up is the one it runs with, and an
/// error is handed on.
pub proof fn set_up_keeps_the_configuration(server: Result<TlsServer, ExecServerTlsError>)
    ensures
        server is Ok ==> config_of(server) == Ok::<Arc<ServerConfig>, ExecServerTlsError>(
            server->Ok_0.config,
        ),
        server is Err ==> config_of(server) == Err::<Arc<ServerConfig>, ExecServerTlsError>(
            server->Err_0,
        ),
{
}

/// A pinned client configuration that was built runs on the provider, accepts
/// exactly the certificates with the pinned digest, checks signatures with the
/// algorithms of the provider, has no certificate and offers `http/1.1` alone. It
/// is built exactly if rustls does not refuse the provider.
pub proof fn client_accepts_only_the_pinned_digest(
    provider: CryptoProvider,
    pinned: Seq<u8>,
    config: Result<Arc<ClientConfig>, ExecServerTlsError>,
    certificate: Seq<u8>,
)
    requires
        pinned_client_built(provider, pinned, config),
    ensures
        config is Ok <==> client_refusal(provider) is None,
        config is Err ==> config->Err_0 is ClientConfig && client_refusal(provider) == Some(
            config->Err_0->ClientConfig_0,
        ),
        config is Ok ==> {
            let model = client_config_model(*config->Ok_0);
            &&& model.provider == provider
            &&& model.verifier.accepts(certificate) <==> fingerprint::sha256_digest(certificate)
                == pinned
            &&& model.verifier.algorithms() == provider_algorithms(provider)
            &&& !model.client_auth
            &&& model.alpn_protocols == seq![seq![104u8, 116, 116, 112, 47, 49, 46, 49]]
        },
{
    offered_protocol_is_http_1_1();
}

/// A certificate is accepted exactly if its whole digest is the pinned one. What is
/// said of any other is fixed.
pub proof fn whole_digests_are_compared(verifier: FingerprintPinnedVerifier, certificate: Seq<u8>)
    ensures
        verifier.accepts(certificate) <==> fingerprint::sha256_digest(certificate)
            == verifier.expected(),
        mismatch_message() == "server certificate fingerprint does not match pinned value"@,
        no_algorithm_message() == "no algorithm for the signature scheme of the handshake"@,
{
}

/// TLS 1.3 forbids the schemes whose high byte is 0 to 3 or whose low byte is 0 to
/// 2, and allows every other.
pub proof fn tls13_forbids_old_schemes(high: u8, low: u8)
    ensures
        tls13_allows((256 * high + low) as u16) <==> !(high == 0 || high == 1 || high == 2 || high
            == 3) && !(low == 0 || low == 1 || low == 2),
{
    let code = (256 * high + low) as u16;
    assert(code / 256 == high && code % 256 == low);
}

/// A signature is left to rustls unless TLS 1.3 allows its scheme and the first
/// entry for it, at `at`, is without an algorithm.
pub proof fn only_a_missing_first_algorithm_counts(
    counts: Seq<(SignatureScheme, usize)>,
    scheme: SignatureScheme,
    at: int,
)
    ensures
        0 <= at < counts.len() && counts[at].0 == scheme && (forall|i: int|
            0 <= i < at ==> (#[trigger] counts[i]).0 != scheme) ==> (scheme_is_usable(
            counts,
            scheme,
        ) <==> !tls13_allows(scheme_code(scheme)) || counts[at].1 > 0),
        (forall|i: int| 0 <= i < counts.len() ==> (#[trigger] counts[i]).0 != scheme)
            ==> scheme_is_usable(counts, scheme),
    decreases counts.len(),
{
    if counts.len() > 0 {
        let rest = counts.drop_first();
        if counts[0].0 != scheme {
            only_a_missing_first_algorithm_counts(rest, scheme, at - 1);
            if 0 <= at < counts.len() && counts[at].0 == scheme && (forall|i: int|
                0 <= i < at ==> (#[trigger] counts[i]).0 != scheme) {
                assert(rest[at - 1] == counts[at]);
                assert forall|i: int| 0 <= i < at - 1 implies (#[trigger] rest[i]).0 != scheme by {
                    assert(counts[i + 1].0 != scheme);
                }
            }
            if forall|i: int| 0 <= i < counts.len() ==> (#[trigger] counts[i]).0 != scheme {
                assert forall|i: int| 0 <= i < rest.len() implies (#[trigger] rest[i]).0
                    != scheme by {
                    assert(counts[i + 1].0 != scheme);
                }
            }
        } else if 0 < at < counts.len() {
            assert(counts[0].0 == scheme);
        }
    }
}

/// The schemes that are offered are those of the algorithms, in order.
pub proof fn offered_schemes_keep_their_order(algorithms: WebPkiSupportedAlgorithms, i: int)
    ensures
        supported_scheme_list(algorithms).len() == algorithm_counts(algorithms).len(),
        0 <= i < algorithm_counts(algorithms).len() ==> supported_scheme_list(algorithms)[i]
            == algorithm_counts(algorithms)[i].0,
{
}

} // verus!
