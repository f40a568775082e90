use netfp::tls::{
    ServerHelloDecoder, TlsCipherSuite, TlsClientHello, TlsContentType, TlsExtension,
    TlsExtensionType, TlsHandshake, TlsHandshakeType, TlsRecord, TlsServerHello, TlsVersion,
    TLS_RECORD_HEADER_LEN,
};
use netfp::Error;

fn server_hello_body(extensions: &[u8]) -> Vec<u8> {
    let mut body = Vec::new();
    body.extend_from_slice(&TlsVersion::TLS12().to_be_bytes());
    body.extend_from_slice(&[0x42; 32]);
    body.extend_from_slice(&[2, 0xaa, 0xbb]);
    body.extend_from_slice(&TlsCipherSuite::TLS_AES_128_GCM_SHA256().to_be_bytes());
    body.push(0);
    if !extensions.is_empty() {
        body.extend_from_slice(&from_usize(extensions.len()));
        body.extend_from_slice(extensions);
    }
    body
}

fn from_usize(value: usize) -> [u8; 2] {
    u16::try_from(value).unwrap().to_be_bytes()
}

fn tls_record(payload: &[u8]) -> Vec<u8> {
    let mut record = vec![TlsContentType::HANDSHAKE().as_u8()];
    record.extend_from_slice(&TlsVersion::TLS12().to_be_bytes());
    record.extend_from_slice(&from_usize(payload.len()));
    record.extend_from_slice(payload);
    record
}

#[test]
fn client_hello_body_round_trips() {
    let extension = TlsExtension::new(TlsExtensionType::SERVER_NAME(), vec![0, 1, 2]).unwrap();
    let hello = TlsClientHello::new(
        TlsVersion::TLS13(),
        vec![TlsCipherSuite::TLS_AES_128_GCM_SHA256()],
        vec![extension],
    )
    .unwrap();

    let encoded = hello.try_to_bytes().unwrap();
    let decoded = TlsClientHello::try_from_bytes(&encoded).unwrap();

    assert_eq!(decoded.legacy_version(), TlsVersion::TLS12());
    assert_eq!(decoded.random(), hello.random());
    assert_eq!(decoded.session_id(), hello.session_id());
    assert_eq!(decoded.cipher_suites(), hello.cipher_suites());
    assert_eq!(decoded.compression_methods(), vec![0]);
    assert_eq!(decoded.extensions().len(), 1);
    assert_eq!(
        decoded.extensions()[0].extension_type(),
        TlsExtensionType::SERVER_NAME()
    );
    assert_eq!(decoded.extensions()[0].extension_data(), &[0, 1, 2]);
}

#[test]
fn rejects_an_odd_cipher_suite_length() {
    let mut body = vec![0x03, 0x03];
    body.extend_from_slice(&[0; 32]);
    body.extend_from_slice(&[0, 0, 1, 0x13]);

    assert!(matches!(
        TlsClientHello::try_from_bytes(&body),
        Err(Error::Malformed(_))
    ));
}

#[test]
fn handshake_round_trips_and_leaves_following_bytes() {
    let handshake = TlsHandshake::new(TlsHandshakeType::CLIENT_HELLO(), &[1, 2, 3]);
    let mut encoded = handshake.try_to_bytes().unwrap();
    encoded.push(0xff);

    let (decoded, consumed) = TlsHandshake::try_from_bytes(&encoded).unwrap();
    assert_eq!(decoded.handshake_type(), TlsHandshakeType::CLIENT_HELLO());
    assert_eq!(decoded.body(), &[1, 2, 3]);
    assert_eq!(consumed, 7);
}

#[test]
fn parses_only_the_first_record() {
    let bytes = [0x16, 0x03, 0x03, 0x00, 0x02, 0xaa, 0xbb, 0xff, 0xff];
    let (record, consumed) = TlsRecord::try_from_bytes(&bytes).unwrap();

    assert_eq!(record.content_type(), &TlsContentType::HANDSHAKE());
    assert_eq!(record.legacy_version(), &TlsVersion::TLS12());
    assert_eq!(record.payload(), &[0xaa, 0xbb]);
    assert_eq!(consumed, 7);
}

#[test]
fn rejects_an_incomplete_header() {
    let error = TlsRecord::try_from_bytes(&[0x16, 0x03]).err().unwrap();

    assert!(matches!(
        error,
        Error::UnexpectedEof {
            needed: TLS_RECORD_HEADER_LEN,
            remaining: 2
        }
    ));
}

#[test]
fn rejects_an_incomplete_payload() {
    let error = TlsRecord::try_from_bytes(&[0x16, 0x03, 0x03, 0x00, 0x03, 0xaa])
        .err()
        .unwrap();

    assert!(matches!(
        error,
        Error::UnexpectedEof {
            needed: 8,
            remaining: 6
        }
    ));
}

#[test]
fn parses_tls13_server_hello_and_alpn() {
    let extensions = [
        0x00, 0x2b, 0x00, 0x02, 0x03, 0x04, 0x00, 0x10, 0x00, 0x05, 0x00, 0x03, 0x02, b'h', b'2',
    ];
    let hello = TlsServerHello::try_from_bytes(&server_hello_body(&extensions)).unwrap();

    assert_eq!(hello.legacy_version(), TlsVersion::TLS12());
    assert_eq!(hello.tls_version(), TlsVersion::TLS13());
    assert_eq!(hello.random(), &[0x42; 32]);
    assert_eq!(hello.session_id(), &[0xaa, 0xbb]);
    assert_eq!(
        hello.cipher_suite(),
        &TlsCipherSuite::TLS_AES_128_GCM_SHA256()
    );
    assert_eq!(
        hello.extension_types(),
        vec![
            TlsExtensionType::SUPPORTED_VERSIONS(),
            TlsExtensionType::APPLICATION_LAYER_PROTOCOL_NEGOTIATION(),
        ]
    );
    assert_eq!(hello.alpn_protocol().unwrap(), Some("h2"));
}

#[test]
fn decoder_reassembles_a_server_hello_across_records() {
    let body = server_hello_body(&[]);
    let mut handshake = vec![TlsHandshakeType::SERVER_HELLO().as_u8()];
    handshake.extend_from_slice(&[
        ((body.len() >> 16) & 0xff) as u8,
        ((body.len() >> 8) & 0xff) as u8,
        (body.len() & 0xff) as u8,
    ]);
    handshake.extend_from_slice(&body);

    let split = 12;
    let first = tls_record(&handshake[..split]);
    let second = tls_record(&handshake[split..]);
    let (first, _) = TlsRecord::try_from_bytes(&first).unwrap();
    let (second, _) = TlsRecord::try_from_bytes(&second).unwrap();
    let mut decoder = ServerHelloDecoder::new();

    assert!(decoder.push_record(&first).unwrap().is_none());
    let hello = decoder.push_record(&second).unwrap().unwrap();
    assert_eq!(hello.tls_version(), TlsVersion::TLS12());
}

#[test]
fn rejects_malformed_alpn() {
    let extensions = [0x00, 0x10, 0x00, 0x04, 0x00, 0x03, 0x01, b'h'];
    let hello = TlsServerHello::try_from_bytes(&server_hello_body(&extensions)).unwrap();

    assert!(matches!(hello.alpn_protocol(), Err(Error::Malformed(_))));
}
