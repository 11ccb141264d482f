use exec_server::error::ExecServerTlsError;
use exec_server::fingerprint::{constant_time_eq, hex_encode, hex_val, parse_fingerprint_hex};
use exec_server::tls::{
    build_pinned_client_config, build_pinned_client_config_on, build_server_config,
    build_server_config_on,
    finish_server_config, generate_self_signed_tls, prepare_tls_server, self_signed_tls, tls_server,
    FingerprintPinnedVerifier, PrivateKey,
};
use rustls::client::danger::ServerCertVerifier;
use rustls::internal::msgs::codec::Codec;
use rustls_pki_types::{CertificateDer, ServerName, UnixTime};
use std::sync::Arc;

fn invalid_message(result: Result<[u8; 32], ExecServerTlsError>) -> String {
    match result {
        Err(ExecServerTlsError::InvalidFingerprint(message)) => message,
        other => panic!("expected an invalid fingerprint, got {:?}", other),
    }
}

#[test]
fn generated_certificate_has_stable_fingerprint_encoding() {
    let tls = generate_self_signed_tls().expect("certificate generation should succeed");
    let hex = tls.fingerprint_hex();
    assert_eq!(hex.len(), 64, "fingerprint hex must be 64 chars");
    let parsed = parse_fingerprint_hex(&hex).expect("round-trip parse should succeed");
    assert_eq!(parsed, tls.fingerprint_sha256);
}

#[test]
fn server_config_builds_from_generated_certificate() {
    let tls = generate_self_signed_tls().expect("certificate generation should succeed");
    let config = build_server_config(tls.cert_der.clone(), tls.key_der.clone_key())
        .expect("server config should build");
    assert_eq!(config.alpn_protocols, vec![b"http/1.1".to_vec()]);
}

#[test]
fn pinned_client_config_advertises_http1_alpn() {
    let tls = generate_self_signed_tls().expect("certificate generation should succeed");
    let config = build_pinned_client_config(tls.fingerprint_sha256)
        .expect("client config should build");
    assert_eq!(config.alpn_protocols, vec![b"http/1.1".to_vec()]);
}

#[test]
fn parse_fingerprint_accepts_colons_and_mixed_case() {
    let canonical = "a".repeat(64);
    let with_colons = canonical
        .as_bytes()
        .chunks(2)
        .map(|pair| std::str::from_utf8(pair).unwrap())
        .collect::<Vec<_>>()
        .join(":");
    let a = parse_fingerprint_hex(&canonical).expect("plain hex should parse");
    let b = parse_fingerprint_hex(&with_colons).expect("colon-separated hex should parse");
    let c = parse_fingerprint_hex(&canonical.to_uppercase()).expect("uppercase hex should parse");
    assert_eq!(a, b);
    assert_eq!(a, c);
}

#[test]
fn parse_fingerprint_rejects_wrong_length() {
    assert!(parse_fingerprint_hex("abcd").is_err());
    assert!(parse_fingerprint_hex(&"a".repeat(63)).is_err());
    assert!(parse_fingerprint_hex(&"g".repeat(64)).is_err());
}

#[test]
fn parse_fingerprint_reads_each_pair() {
    let written = "000102030405060708090a0b0c0d0e0f1011121314151617F8f9fAFbfcFDfeff";
    let parsed = parse_fingerprint_hex(written).unwrap();
    assert_eq!(parsed[0], 0);
    assert_eq!(parsed[10], 10);
    assert_eq!(parsed[16], 0x10);
    assert_eq!(parsed[23], 0x17);
    assert_eq!(parsed[24], 0xf8);
    assert_eq!(parsed[31], 0xff);
    let spaced = format!("{} - :{}", &written[..7], &written[7..]);
    assert_eq!(parse_fingerprint_hex(&spaced).unwrap(), parsed);
}

#[test]
fn parse_fingerprint_says_what_is_wrong() {
    assert_eq!(
        invalid_message(parse_fingerprint_hex("ab:cd")),
        "expected 64 hex characters, got 4"
    );
    assert_eq!(
        invalid_message(parse_fingerprint_hex("")),
        "expected 64 hex characters, got 0"
    );
    assert_eq!(
        invalid_message(parse_fingerprint_hex(&"a".repeat(1203))),
        "expected 64 hex characters, got 1203"
    );
    assert_eq!(
        invalid_message(parse_fingerprint_hex(&format!("{}xg", "a".repeat(62)))),
        "invalid hex character: 'x'"
    );
    assert_eq!(
        invalid_message(parse_fingerprint_hex(&format!("\t{}", "a".repeat(63)))),
        "invalid hex character: '\\t'"
    );
    // The length counts bytes, so two bytes of one character are two digits.
    assert_eq!(
        invalid_message(parse_fingerprint_hex(&format!("\u{e9}{}", "a".repeat(62)))),
        "invalid hex character: '\u{c3}'"
    );
    assert_eq!(
        invalid_message(parse_fingerprint_hex(&format!("\u{e9}{}", "a".repeat(63)))),
        "expected 64 hex characters, got 65"
    );
}

#[test]
fn hex_digits_have_their_values() {
    assert_eq!(hex_val(b'0').unwrap(), 0);
    assert_eq!(hex_val(b'9').unwrap(), 9);
    assert_eq!(hex_val(b'a').unwrap(), 10);
    assert_eq!(hex_val(b'F').unwrap(), 15);
    assert!(hex_val(b'g').is_err());
    assert!(hex_val(b'/').is_err());
    assert!(hex_val(b':').is_err());
    assert!(hex_val(b'@').is_err());
    assert!(hex_val(b'`').is_err());
    assert_eq!(hex_encode(&[0xbe, 0xef, 0x00, 0x0a]), "beef000a");
    assert_eq!(hex_encode(&[]), "");
}

#[test]
fn fingerprints_compare_in_full() {
    let a = [7u8; 32];
    let mut b = a;
    assert!(constant_time_eq(&a, &b));
    b[31] ^= 1;
    assert!(!constant_time_eq(&a, &b));
    b[31] ^= 1;
    b[0] ^= 0x80;
    assert!(!constant_time_eq(&a, &b));
}

#[test]
fn fingerprint_is_the_sha256_of_the_certificate() {
    let tls = match self_signed_tls(Ok((b"abc".to_vec(), vec![1, 2, 3]))) {
        Ok(tls) => tls,
        Err(error) => panic!("{:?}", error),
    };
    assert_eq!(
        tls.fingerprint_hex(),
        "ba7816bf8f01cfea414140de5dae2223b00361a396177a9cb410ff61f20015ad"
    );
    assert_eq!(tls.cert_der, b"abc".to_vec());
    assert!(matches!(tls.key_der, PrivateKey::Pkcs8(ref key) if *key == vec![1, 2, 3]));
}

#[test]
fn failed_generation_is_reported() {
    let failed = self_signed_tls(Err(rcgen::Error::CouldNotParseKeyPair));
    assert!(matches!(
        failed,
        Err(ExecServerTlsError::CertificateGeneration(rcgen::Error::CouldNotParseKeyPair))
    ));
    let server = tls_server(Err(ExecServerTlsError::InvalidFingerprint("kept".to_string())));
    match server {
        Err(ExecServerTlsError::InvalidFingerprint(message)) => assert_eq!(message, "kept"),
        _ => panic!("the error should be handed on"),
    }
}

#[test]
fn mismatched_key_is_refused() {
    let first = generate_self_signed_tls().unwrap();
    let second = generate_self_signed_tls().unwrap();
    assert_ne!(first.cert_der, second.cert_der);
    assert!(matches!(
        build_server_config(first.cert_der.clone(), second.key_der.clone_key()),
        Err(ExecServerTlsError::ServerConfig(_))
    ));
    assert!(matches!(
        build_server_config(first.cert_der.clone(), PrivateKey::Sec1(vec![1, 2, 3])),
        Err(ExecServerTlsError::ServerConfig(_))
    ));
    assert!(matches!(
        build_server_config(first.cert_der.clone(), PrivateKey::Pkcs1(vec![])),
        Err(ExecServerTlsError::ServerConfig(_))
    ));
    let provider = Arc::new(rustls::crypto::ring::default_provider());
    assert!(build_server_config_on(provider, first.cert_der, first.key_der).is_ok());
}

fn presents(verifier: &FingerprintPinnedVerifier, der: &[u8]) -> Result<(), rustls::Error> {
    let name = ServerName::try_from("example.com").unwrap();
    let now = UnixTime::now();
    verifier
        .verify_server_cert(&CertificateDer::from(der), &[], &name, &[], now)
        .map(|_| ())
}

#[test]
fn verifier_accepts_only_the_pinned_certificate() {
    let tls = generate_self_signed_tls().unwrap();
    let verifier = FingerprintPinnedVerifier::new(tls.fingerprint_sha256);
    assert!(presents(&verifier, &tls.cert_der).is_ok());
    assert!(verifier.check_digest(&tls.fingerprint_sha256));
    let other = generate_self_signed_tls().unwrap();
    assert_eq!(
        presents(&verifier, &other.cert_der),
        Err(rustls::Error::General(
            "server certificate fingerprint does not match pinned value".to_string()
        ))
    );
    let mut wrong = tls.fingerprint_sha256;
    wrong[0] ^= 0xff;
    assert!(presents(&FingerprintPinnedVerifier::new(wrong), &tls.cert_der).is_err());
}

#[test]
fn verifier_supports_the_schemes_of_its_provider() {
    let provider = rustls::crypto::ring::default_provider();
    let verifier = FingerprintPinnedVerifier::on_provider(&provider, [0; 32]);
    let expected = provider.signature_verification_algorithms.supported_schemes();
    assert!(!expected.is_empty());
    assert_eq!(verifier.supported_verify_schemes(), expected);
}

#[test]
fn client_that_pins_the_shown_fingerprint_accepts_the_server() {
    let tls = generate_self_signed_tls().unwrap();
    let der = tls.cert_der.clone();
    let server = match tls_server(Ok(tls)) {
        Ok(server) => server,
        Err(error) => panic!("{:?}", error),
    };
    assert_eq!(server.config.alpn_protocols, vec![b"http/1.1".to_vec()]);
    let pinned = parse_fingerprint_hex(&server.fingerprint).unwrap();
    assert!(presents(&FingerprintPinnedVerifier::new(pinned), &der).is_ok());
    assert_eq!(
        build_pinned_client_config(pinned).unwrap().alpn_protocols,
        server.config.alpn_protocols
    );
}

/// Runs a TLS handshake in memory and says how it ends for the client.
fn handshake(
    server: Arc<rustls::ServerConfig>,
    client: Arc<rustls::ClientConfig>,
) -> Result<Option<Vec<u8>>, rustls::Error> {
    let mut server = rustls::ServerConnection::new(server).unwrap();
    let name = ServerName::try_from("elsewhere.example").unwrap();
    let mut client = rustls::ClientConnection::new(client, name).unwrap();
    while client.is_handshaking() {
        let mut wire: Vec<u8> = Vec::new();
        while client.wants_write() {
            client.write_tls(&mut wire).unwrap();
        }
        let mut sent: &[u8] = &wire;
        while !sent.is_empty() {
            server.read_tls(&mut sent).unwrap();
            server.process_new_packets().unwrap();
        }
        let mut wire: Vec<u8> = Vec::new();
        while server.wants_write() {
            server.write_tls(&mut wire).unwrap();
        }
        let mut sent: &[u8] = &wire;
        while !sent.is_empty() {
            client.read_tls(&mut sent).unwrap();
            client.process_new_packets()?;
        }
    }
    Ok(client.alpn_protocol().map(|protocol| protocol.to_vec()))
}

#[test]
fn pinned_handshake_succeeds_and_a_wrong_pin_fails() {
    let server = match prepare_tls_server() {
        Ok(server) => server,
        Err(error) => panic!("{:?}", error),
    };
    let pinned = parse_fingerprint_hex(&server.fingerprint).unwrap();
    assert_eq!(
        handshake(server.config.clone(), build_pinned_client_config(pinned).unwrap()),
        Ok(Some(b"http/1.1".to_vec()))
    );
    let mut wrong = pinned;
    wrong[0] ^= 0xff;
    assert!(handshake(server.config.clone(), build_pinned_client_config(wrong).unwrap()).is_err());
}

#[test]
fn pinned_handshake_succeeds_with_the_older_protocol() {
    let tls = generate_self_signed_tls().unwrap();
    let key = match tls.key_der.clone_key() {
        PrivateKey::Pkcs8(der) => der,
        _ => panic!("the generated key should be in PKCS#8"),
    };
    let provider = Arc::new(rustls::crypto::ring::default_provider());
    let config = rustls::ServerConfig::builder_with_provider(provider)
        .with_protocol_versions(&[&rustls::version::TLS12])
        .unwrap()
        .with_no_client_auth()
        .with_single_cert(
            vec![CertificateDer::from(tls.cert_der.clone())],
            rustls_pki_types::PrivateKeyDer::Pkcs8(key.into()),
        )
        .unwrap();
    let config = match finish_server_config(Ok(config)) {
        Ok(config) => config,
        Err(error) => panic!("{:?}", error),
    };
    assert_eq!(
        handshake(config.clone(), build_pinned_client_config(tls.fingerprint_sha256).unwrap()),
        Ok(Some(b"http/1.1".to_vec()))
    );
    assert!(handshake(config, build_pinned_client_config([0; 32]).unwrap()).is_err());
}

#[test]
fn refused_configuration_is_reported() {
    let refused = finish_server_config(Err(rustls::Error::NoCertificatesPresented));
    assert!(matches!(
        refused,
        Err(ExecServerTlsError::ServerConfig(rustls::Error::NoCertificatesPresented))
    ));
}

#[test]
fn scheme_without_an_algorithm_fails_the_handshake() {
    let server = match prepare_tls_server() {
        Ok(server) => server,
        Err(error) => panic!("{:?}", error),
    };
    let pinned = parse_fingerprint_hex(&server.fingerprint).unwrap();
    let mut provider = rustls::crypto::ring::default_provider();
    provider.signature_verification_algorithms = rustls::crypto::WebPkiSupportedAlgorithms {
        all: &[],
        mapping: &[(rustls::SignatureScheme::ECDSA_NISTP256_SHA256, &[])],
    };
    let client = build_pinned_client_config_on(Arc::new(provider), pinned).unwrap();
    assert_eq!(
        handshake(server.config.clone(), client),
        Err(rustls::Error::General(
            "no algorithm for the signature scheme of the handshake".to_string()
        ))
    );
    let client = build_pinned_client_config_on(
        Arc::new(rustls::crypto::ring::default_provider()),
        pinned,
    );
    assert!(handshake(server.config, client.unwrap()).is_ok());
}

type Entry =
    (rustls::SignatureScheme, &'static [&'static dyn rustls_pki_types::SignatureVerificationAlgorithm]);

/// What the verifier and rustls find of a signature, with `entries` as the mapping.
fn tls13_findings(
    entries: Vec<Entry>,
    scheme: u16,
) -> (Result<(), rustls::Error>, Result<(), rustls::Error>) {
    let tls = generate_self_signed_tls().unwrap();
    let certificate = CertificateDer::from(tls.cert_der);
    let mut provider = rustls::crypto::ring::default_provider();
    let algorithms = rustls::crypto::WebPkiSupportedAlgorithms { all: &[], mapping: entries.leak() };
    provider.signature_verification_algorithms = algorithms;
    let verifier = FingerprintPinnedVerifier::on_provider(&provider, [0; 32]);
    let [high, low] = scheme.to_be_bytes();
    let signature = rustls::DigitallySignedStruct::read_bytes(&[high, low, 0, 1, 7]).unwrap();
    let found = verifier.verify_tls13_signature(b"message", &certificate, &signature);
    let expected =
        rustls::crypto::verify_tls13_signature(b"message", &certificate, &signature, &algorithms);
    (found.map(|_| ()), expected.map(|_| ()))
}

#[test]
fn other_schemes_are_left_to_rustls() {
    let ecdsa = rustls::SignatureScheme::ECDSA_NISTP256_SHA256;
    let rsa = rustls::SignatureScheme::RSA_PKCS1_SHA256;
    let provider = rustls::crypto::ring::default_provider();
    let listed: Entry = *provider
        .signature_verification_algorithms
        .mapping
        .iter()
        .find(|entry| entry.0 == ecdsa)
        .unwrap();
    let empty: Entry = (ecdsa, &[]);
    let unknown: Entry = (rustls::SignatureScheme::Unknown(0x0403), &[]);
    // Listed again without an algorithm, or beside an entry that is not equal.
    for entries in [vec![listed], vec![listed, empty], vec![unknown, listed], vec![unknown]] {
        let (found, expected) = tls13_findings(entries, 0x0403);
        assert!(expected.is_err());
        assert_eq!(found, expected);
    }
    // Not allowed in TLS 1.3, or not listed.
    let misbehaved = Err(rustls::Error::PeerMisbehaved(
        rustls::PeerMisbehaved::SignedHandshakeWithUnadvertisedSigScheme,
    ));
    for (entries, scheme) in [(vec![(rsa, empty.1)], 0x0401), (vec![empty], 0x0807)] {
        let (found, expected) = tls13_findings(entries, scheme);
        assert_eq!(expected, misbehaved);
        assert_eq!(found, expected);
    }
}

#[test]
fn scheme_listed_again_without_an_algorithm_is_accepted() {
    let server = match prepare_tls_server() {
        Ok(server) => server,
        Err(error) => panic!("{:?}", error),
    };
    let pinned = parse_fingerprint_hex(&server.fingerprint).unwrap();
    let mut provider = rustls::crypto::ring::default_provider();
    let mut entries: Vec<Entry> = provider.signature_verification_algorithms.mapping.to_vec();
    entries.push((rustls::SignatureScheme::ECDSA_NISTP256_SHA256, &[]));
    provider.signature_verification_algorithms.mapping = entries.leak();
    let client = build_pinned_client_config_on(Arc::new(provider), pinned).unwrap();
    assert!(handshake(server.config, client).is_ok());
}

#[test]
fn provider_without_suites_or_groups_is_refused() {
    let mut provider = rustls::crypto::ring::default_provider();
    provider.cipher_suites.clear();
    let error = build_pinned_client_config_on(Arc::new(provider), [0; 32]).unwrap_err();
    assert_eq!(
        error.message(),
        "failed to build rustls client config: unexpected error: no usable cipher suites configured"
    );
    let mut provider = rustls::crypto::ring::default_provider();
    provider.kx_groups.clear();
    assert!(matches!(
        build_pinned_client_config_on(Arc::new(provider), [0; 32]),
        Err(ExecServerTlsError::ClientConfig(rustls::Error::General(_)))
    ));
}

#[test]
fn generation_errors_convert() {
    assert!(matches!(
        ExecServerTlsError::from(rcgen::Error::Time),
        ExecServerTlsError::CertificateGeneration(rcgen::Error::Time)
    ));
}

#[test]
fn tls_errors_say_what_failed() {
    assert_eq!(
        ExecServerTlsError::CertificateGeneration(rcgen::Error::CouldNotParseKeyPair).message(),
        "failed to generate self-signed certificate: Could not parse key pair"
    );
    assert_eq!(
        ExecServerTlsError::ServerConfig(rustls::Error::NoCertificatesPresented).message(),
        "failed to build rustls server config: peer sent no certificates"
    );
    assert_eq!(
        ExecServerTlsError::InvalidFingerprint("why".to_string()).message(),
        "invalid pinned certificate fingerprint: why"
    );
}
