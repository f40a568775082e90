use netfp::jarm::jarm_fingerprint_from_digest;
use netfp::tls::{
    TlsCipherSuite, TlsClientHello, TlsExtension, TlsExtensionType, TlsServerHello,
    TlsSupportedGroup, TlsVersion,
};
use netfp::{ja3_fingerprint, ja3s_fingerprint, jarm_fingerprint, Error};

#[test]
fn computes_ja3_and_excludes_grease() {
    let cipher_suites = [
        TlsCipherSuite(0x0a0a),
        TlsCipherSuite::TLS_AES_128_GCM_SHA256(),
        TlsCipherSuite::TLS_ECDHE_RSA_WITH_AES_128_GCM_SHA256(),
    ];

    let mut supported_groups = Vec::new();
    supported_groups.extend_from_slice(&6u16.to_be_bytes());
    supported_groups.extend_from_slice(&0x2a2au16.to_be_bytes());
    supported_groups.extend_from_slice(&TlsSupportedGroup::X25519().to_be_bytes());
    supported_groups.extend_from_slice(&TlsSupportedGroup::SECP256R1().to_be_bytes());

    let extensions = [
        TlsExtension::new(TlsExtensionType(0x1a1a), Vec::new()).unwrap(),
        TlsExtension::new(TlsExtensionType::SUPPORTED_GROUPS(), supported_groups).unwrap(),
        TlsExtension::new(TlsExtensionType::EC_POINT_FORMATS(), vec![1, 0]).unwrap(),
        TlsExtension::new(TlsExtensionType::SERVER_NAME(), Vec::new()).unwrap(),
    ];
    let encoded_extensions = extensions
        .iter()
        .flat_map(TlsExtension::to_bytes)
        .collect::<Vec<_>>();

    let mut body = Vec::new();
    body.extend_from_slice(&TlsVersion::TLS12().to_be_bytes());
    body.extend_from_slice(&[0; 32]);
    body.push(0);
    body.extend_from_slice(&((cipher_suites.len() * 2) as u16).to_be_bytes());
    for cipher_suite in cipher_suites {
        body.extend_from_slice(&cipher_suite.to_be_bytes());
    }
    body.extend_from_slice(&[1, 0]);
    body.extend_from_slice(&(encoded_extensions.len() as u16).to_be_bytes());
    body.extend_from_slice(&encoded_extensions);

    let client_hello = TlsClientHello::try_from_bytes(&body).unwrap();
    assert_eq!(
        ja3_fingerprint(&client_hello).unwrap(),
        "4eb147fcea0e7960db5e8e2fd1978cfa"
    );
}

#[test]
fn computes_ja3s_like_the_original_implementation() {
    let extensions = [
        TlsExtension::new(TlsExtensionType(0x1a1a), Vec::new()).unwrap(),
        TlsExtension::new(
            TlsExtensionType::SUPPORTED_VERSIONS(),
            TlsVersion::TLS13().to_be_bytes().to_vec(),
        )
        .unwrap(),
    ];
    let encoded_extensions = extensions
        .iter()
        .flat_map(TlsExtension::to_bytes)
        .collect::<Vec<_>>();

    let mut body = Vec::new();
    body.extend_from_slice(&TlsVersion::TLS12().to_be_bytes());
    body.extend_from_slice(&[0; 32]);
    body.push(0);
    body.extend_from_slice(&TlsCipherSuite::TLS_AES_128_GCM_SHA256().to_be_bytes());
    body.push(0);
    body.extend_from_slice(&(encoded_extensions.len() as u16).to_be_bytes());
    body.extend_from_slice(&encoded_extensions);

    let server_hello = TlsServerHello::try_from_bytes(&body).unwrap();
    assert_eq!(
        ja3s_fingerprint(&server_hello),
        "4e64de91c49a3bfadb26a811b72d64c2"
    );
}

fn test_server_hello() -> TlsServerHello {
    let mut body = Vec::new();
    body.extend_from_slice(&TlsVersion::TLS12().to_be_bytes());
    body.extend_from_slice(&[0; 32]);
    body.push(0);
    body.extend_from_slice(&TlsCipherSuite::TLS_AES_128_GCM_SHA256().to_be_bytes());
    body.push(0);

    let extensions = [
        0x00, 0x2b, 0x00, 0x02, 0x03, 0x04, 0x00, 0x10, 0x00, 0x05, 0x00, 0x03, 0x02, b'h', b'2',
    ];
    body.extend_from_slice(&(extensions.len() as u16).to_be_bytes());
    body.extend_from_slice(&extensions);

    TlsServerHello::try_from_bytes(&body).unwrap()
}

/// A `ServerHello` with the given legacy version and cipher suite and no
/// extension block.
fn bare_server_hello(version: u16, cipher_suite: u16) -> TlsServerHello {
    let mut body = Vec::new();
    body.extend_from_slice(&version.to_be_bytes());
    body.extend_from_slice(&[7; 32]);
    body.push(0);
    body.extend_from_slice(&cipher_suite.to_be_bytes());
    body.push(0);
    TlsServerHello::try_from_bytes(&body).unwrap()
}

#[test]
fn fingerprint_matches_known_digest_vector() {
    let responses = (0..10)
        .map(|_| Some(test_server_hello()))
        .collect::<Vec<_>>();

    assert_eq!(
        jarm_fingerprint(&responses),
        "41d41d41d41d41d41d41d41d41d41da0bfb9dc5a7a50dfa51c2a70be11dda8"
    );
}

#[test]
fn jarm_of_no_responses_is_zeros() {
    let none: Vec<Option<TlsServerHello>> = Vec::new();
    assert_eq!(jarm_fingerprint(&none), "0".repeat(62));

    let absent = (0..10).map(|_| None).collect::<Vec<Option<TlsServerHello>>>();
    assert_eq!(jarm_fingerprint(&absent), "0".repeat(62));
}

#[test]
fn jarm_counts_a_malformed_alpn_as_no_response() {
    let mut body = Vec::new();
    body.extend_from_slice(&TlsVersion::TLS12().to_be_bytes());
    body.extend_from_slice(&[0x42; 32]);
    body.push(0);
    body.extend_from_slice(&TlsCipherSuite::TLS_AES_128_GCM_SHA256().to_be_bytes());
    body.push(0);
    let extensions = [0x00, 0x10, 0x00, 0x04, 0x00, 0x03, 0x01, b'h'];
    body.extend_from_slice(&(extensions.len() as u16).to_be_bytes());
    body.extend_from_slice(&extensions);
    let hello = TlsServerHello::try_from_bytes(&body).unwrap();

    assert_eq!(jarm_fingerprint(&[Some(hello)]), "0".repeat(62));
}

#[test]
fn jarm_treats_missing_trailing_responses_as_absent() {
    let one = jarm_fingerprint(&[Some(test_server_hello())]);
    assert_eq!(
        one,
        "41d000000000000000000000000000ad3a5ac7f9e32975e6ec1d978cd0db95"
    );

    let mut padded = vec![Some(test_server_hello())];
    padded.extend((0..9).map(|_| None));
    assert_eq!(jarm_fingerprint(&padded), one);
}

#[test]
fn jarm_ignores_responses_after_the_tenth() {
    let ten = (0..10)
        .map(|_| Some(test_server_hello()))
        .collect::<Vec<_>>();
    let mut eleven = (0..10)
        .map(|_| Some(test_server_hello()))
        .collect::<Vec<_>>();
    eleven.push(Some(bare_server_hello(0x0301, 0x0004)));

    assert_eq!(jarm_fingerprint(&eleven), jarm_fingerprint(&ten));
}

#[test]
fn jarm_numbers_unknown_suites_after_the_list_and_letters_versions() {
    // 0x1234 is not in the JARM order, so it is numbered 70 (0x46); TLS 1.0
    // has version byte 1, the letter `b`; nothing is hashed but the empty text.
    let fingerprint = jarm_fingerprint(&[Some(bare_server_hello(0x0301, 0x1234))]);
    assert_eq!(
        fingerprint,
        "46b000000000000000000000000000e3b0c44298fc1c149afbf4c8996fb924"
    );

    // The first suite of the JARM order is numbered 1; version byte 5 is `f`,
    // version byte 6 has no letter.
    let first = jarm_fingerprint_from_digest(&[Some(bare_server_hello(0x0305, 0x0004))], &[0; 32]);
    assert_eq!(&first[..3], "01f");
    let unlettered =
        jarm_fingerprint_from_digest(&[Some(bare_server_hello(0x0306, 0x0004))], &[0; 32]);
    assert_eq!(&unlettered[..3], "010");
}

#[test]
fn jarm_from_digest_places_the_digest_after_the_heads() {
    let responses = (0..10)
        .map(|_| Some(test_server_hello()))
        .collect::<Vec<_>>();
    let mut digest = [0u8; 32];
    digest[0] = 0xab;
    digest[15] = 0x01;
    digest[16] = 0xff;

    assert_eq!(
        jarm_fingerprint_from_digest(&responses, &digest),
        "41d41d41d41d41d41d41d41d41d41dab000000000000000000000000000001"
    );
}

#[test]
fn jarm_fingerprint_is_62_lowercase_hex_digits() {
    let responses = vec![
        Some(test_server_hello()),
        None,
        Some(bare_server_hello(0x0303, 0xc02f)),
    ];
    let fingerprint = jarm_fingerprint(&responses);
    assert_eq!(fingerprint.len(), 62);
    assert!(fingerprint
        .bytes()
        .all(|b| b.is_ascii_digit() || (b'a'..=b'f').contains(&b)));
}

#[test]
fn ja3_rejects_a_malformed_supported_groups_extension() {
    let extensions = [TlsExtension::new(TlsExtensionType::SUPPORTED_GROUPS(), vec![0, 3, 0, 0x1d, 0])
        .unwrap()];
    let encoded_extensions = extensions
        .iter()
        .flat_map(TlsExtension::to_bytes)
        .collect::<Vec<_>>();
    let mut body = Vec::new();
    body.extend_from_slice(&TlsVersion::TLS12().to_be_bytes());
    body.extend_from_slice(&[0; 32]);
    body.push(0);
    body.extend_from_slice(&2u16.to_be_bytes());
    body.extend_from_slice(&TlsCipherSuite::TLS_AES_128_GCM_SHA256().to_be_bytes());
    body.extend_from_slice(&[1, 0]);
    body.extend_from_slice(&(encoded_extensions.len() as u16).to_be_bytes());
    body.extend_from_slice(&encoded_extensions);
    let client_hello = TlsClientHello::try_from_bytes(&body).unwrap();

    assert!(matches!(
        ja3_fingerprint(&client_hello),
        Err(Error::Malformed("invalid supported_groups extension"))
    ));
}

#[test]
fn ja3_of_a_hello_without_extensions() {
    // JA3 string "771,4865,,," hashed with MD5.
    let mut body = Vec::new();
    body.extend_from_slice(&TlsVersion::TLS12().to_be_bytes());
    body.extend_from_slice(&[0; 32]);
    body.push(0);
    body.extend_from_slice(&2u16.to_be_bytes());
    body.extend_from_slice(&TlsCipherSuite::TLS_AES_128_GCM_SHA256().to_be_bytes());
    body.extend_from_slice(&[1, 0]);
    let client_hello = TlsClientHello::try_from_bytes(&body).unwrap();

    assert_eq!(
        ja3_fingerprint(&client_hello).unwrap(),
        "ea1e247991e541e39bf918cb7cfa5139"
    );
}

fn client_hello_with(suites: &[u16], extensions: &[TlsExtension]) -> TlsClientHello {
    let encoded_extensions = extensions
        .iter()
        .flat_map(TlsExtension::to_bytes)
        .collect::<Vec<_>>();
    let mut body = Vec::new();
    body.extend_from_slice(&TlsVersion::TLS12().to_be_bytes());
    body.extend_from_slice(&[3; 32]);
    body.push(0);
    body.extend_from_slice(&((suites.len() * 2) as u16).to_be_bytes());
    for suite in suites {
        body.extend_from_slice(&suite.to_be_bytes());
    }
    body.extend_from_slice(&[1, 0]);
    body.extend_from_slice(&(encoded_extensions.len() as u16).to_be_bytes());
    body.extend_from_slice(&encoded_extensions);
    TlsClientHello::try_from_bytes(&body).unwrap()
}

#[test]
fn ja3_is_unchanged_by_grease_values() {
    let plain = client_hello_with(
        &[0x1301, 0xc02f],
        &[
            TlsExtension::new(TlsExtensionType::EC_POINT_FORMATS(), vec![1, 0]).unwrap(),
            TlsExtension::new(TlsExtensionType::SERVER_NAME(), Vec::new()).unwrap(),
        ],
    );
    let greased = client_hello_with(
        &[0x5a5a, 0x1301, 0xc02f],
        &[
            TlsExtension::new(TlsExtensionType(0xeaea), vec![0]).unwrap(),
            TlsExtension::new(TlsExtensionType::EC_POINT_FORMATS(), vec![1, 0]).unwrap(),
            TlsExtension::new(TlsExtensionType::SERVER_NAME(), Vec::new()).unwrap(),
        ],
    );
    assert_eq!(
        ja3_fingerprint(&plain).unwrap(),
        ja3_fingerprint(&greased).unwrap()
    );
}
