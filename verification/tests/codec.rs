use netfp::primitives::U24;
use netfp::tls::{
    ServerHelloDecoder, TlsCipherSuite, TlsClientHello, TlsContentType, TlsExtension,
    TlsExtensionType, TlsHandshake, TlsHandshakeType, TlsReader, TlsRecord, TlsServerHello,
    TlsVersion,
};
use netfp::Error;

fn hello_body(extension_block: &[u8]) -> Vec<u8> {
    let mut body = Vec::new();
    body.extend_from_slice(&TlsVersion::TLS12().to_be_bytes());
    body.extend_from_slice(&[0x11; 32]);
    body.push(0);
    body.extend_from_slice(&TlsCipherSuite::TLS_AES_128_GCM_SHA256().to_be_bytes());
    body.push(0);
    body.extend_from_slice(extension_block);
    body
}

#[test]
fn record_round_trips_and_ignores_following_bytes() {
    let record = TlsRecord::new(TlsContentType::HANDSHAKE(), TlsVersion::TLS10(), &[9, 8, 7]);
    let mut bytes = record.try_to_bytes().unwrap();
    assert_eq!(bytes, vec![0x16, 0x03, 0x01, 0x00, 0x03, 9, 8, 7]);
    bytes.extend_from_slice(&[1, 2, 3, 4, 5, 6]);

    let (decoded, consumed) = TlsRecord::try_from_bytes(&bytes).unwrap();
    assert_eq!(consumed, 8);
    assert_eq!(decoded.content_type(), &TlsContentType::HANDSHAKE());
    assert_eq!(decoded.legacy_version(), &TlsVersion::TLS10());
    assert_eq!(decoded.payload(), &[9, 8, 7]);
}

#[test]
fn record_refuses_an_oversized_payload() {
    let payload = vec![0u8; 16385];
    let record = TlsRecord::new(TlsContentType::HANDSHAKE(), TlsVersion::TLS12(), &payload);
    assert!(matches!(
        record.try_to_bytes(),
        Err(Error::LengthOverflow {
            max: 16384,
            actual: 16385
        })
    ));
    let largest = vec![0u8; 16384];
    let record = TlsRecord::new(TlsContentType::HANDSHAKE(), TlsVersion::TLS12(), &largest);
    assert_eq!(record.try_to_bytes().unwrap().len(), 16389);
}

#[test]
fn handshake_reports_an_incomplete_message() {
    assert!(matches!(
        TlsHandshake::try_from_bytes(&[1, 0, 0]),
        Err(Error::UnexpectedEof {
            needed: 4,
            remaining: 3
        })
    ));
    assert!(matches!(
        TlsHandshake::try_from_bytes(&[1, 0, 0, 5, 1, 2]),
        Err(Error::UnexpectedEof {
            needed: 9,
            remaining: 6
        })
    ));
}

#[test]
fn u24_holds_24_bits() {
    assert_eq!(U24::new(0x01_02_03).unwrap().to_be_bytes(), [1, 2, 3]);
    assert_eq!(U24::new(U24::MAX).unwrap().to_be_bytes(), [0xff, 0xff, 0xff]);
    assert!(matches!(
        U24::new(0x0100_0000),
        Err(Error::LengthOverflow {
            max: 16_777_215,
            actual: 16_777_216
        })
    ));
}

#[test]
fn reader_reads_in_network_byte_order() {
    let bytes = [1, 2, 3, 4, 5, 6, 7];
    let mut reader = TlsReader::new(&bytes);
    assert_eq!(reader.read_u8().unwrap(), 1);
    assert_eq!(reader.read_u16().unwrap(), 0x0203);
    assert_eq!(reader.read_u24().unwrap(), 0x04_05_06);
    assert_eq!(reader.remaining(), 1);
    assert!(matches!(
        reader.read_u16(),
        Err(Error::UnexpectedEof {
            needed: 2,
            remaining: 1
        })
    ));
    assert_eq!(reader.read_bytes(1).unwrap(), &[7]);
    assert!(reader.is_empty());
}

#[test]
fn extension_refuses_an_oversized_payload() {
    assert!(matches!(
        TlsExtension::new(TlsExtensionType::SERVER_NAME(), vec![0; 65536]),
        Err(Error::LengthOverflow {
            max: 65535,
            actual: 65536
        })
    ));
    let extension = TlsExtension::new(TlsExtensionType(0x1234), vec![0xaa, 0xbb]).unwrap();
    assert_eq!(extension.to_bytes(), vec![0x12, 0x34, 0x00, 0x02, 0xaa, 0xbb]);
}

#[test]
fn client_hello_needs_a_cipher_suite() {
    assert!(matches!(
        TlsClientHello::new(TlsVersion::TLS12(), Vec::new(), Vec::new()),
        Err(Error::Malformed(
            "ClientHello must contain at least one cipher suite"
        ))
    ));
    let too_many = vec![TlsCipherSuite(0x0001); 0x8000];
    assert!(matches!(
        TlsClientHello::new(TlsVersion::TLS12(), too_many, Vec::new()),
        Err(Error::LengthOverflow {
            max: 65535,
            actual: 65536
        })
    ));
}

#[test]
fn client_hello_with_random_encodes_exactly() {
    let hello = TlsClientHello::with_random(
        TlsVersion::TLS11(),
        vec![TlsCipherSuite(0x1301), TlsCipherSuite(0x0005)],
        vec![TlsExtension::new(TlsExtensionType(0x0017), Vec::new()).unwrap()],
        [0x21; 32],
        [0x32; 32],
    )
    .unwrap();
    let mut expected = vec![0x03, 0x02];
    expected.extend_from_slice(&[0x21; 32]);
    expected.push(32);
    expected.extend_from_slice(&[0x32; 32]);
    expected.extend_from_slice(&[0x00, 0x04, 0x13, 0x01, 0x00, 0x05, 0x01, 0x00]);
    expected.extend_from_slice(&[0x00, 0x04, 0x00, 0x17, 0x00, 0x00]);
    assert_eq!(hello.try_to_bytes().unwrap(), expected);
}

#[test]
fn client_hello_parse_errors() {
    // A session ID longer than 32 bytes.
    let mut body = vec![0x03, 0x03];
    body.extend_from_slice(&[0; 32]);
    body.push(33);
    assert!(matches!(
        TlsClientHello::try_from_bytes(&body),
        Err(Error::Malformed("ClientHello session ID exceeds 32 bytes"))
    ));

    // No compression method.
    let mut body = vec![0x03, 0x03];
    body.extend_from_slice(&[0; 32]);
    body.extend_from_slice(&[0, 0, 2, 0x13, 0x01, 0]);
    assert!(matches!(
        TlsClientHello::try_from_bytes(&body),
        Err(Error::Malformed(
            "ClientHello must contain at least one compression method"
        ))
    ));

    // Bytes after the extension block.
    let mut body = vec![0x03, 0x03];
    body.extend_from_slice(&[0; 32]);
    body.extend_from_slice(&[0, 0, 2, 0x13, 0x01, 1, 0, 0, 0, 0xff]);
    assert!(matches!(
        TlsClientHello::try_from_bytes(&body),
        Err(Error::Malformed("trailing bytes after ClientHello extensions"))
    ));

    // A truncated random value.
    assert!(matches!(
        TlsClientHello::try_from_bytes(&[0x03, 0x03, 1, 2]),
        Err(Error::UnexpectedEof {
            needed: 32,
            remaining: 2
        })
    ));
}

#[test]
fn server_hello_parse_errors() {
    let mut compressed = hello_body(&[]);
    compressed[37] = 1;
    assert!(matches!(
        TlsServerHello::try_from_bytes(&compressed),
        Err(Error::Malformed("unsupported ServerHello compression method"))
    ));

    let tls13 = [0x00, 0x06, 0x00, 0x2b, 0x00, 0x02, 0x03, 0x04];
    assert_eq!(
        TlsServerHello::try_from_bytes(&hello_body(&tls13))
            .unwrap()
            .tls_version(),
        TlsVersion::TLS13()
    );

    let doubled = [
        0x00, 0x0c, 0x00, 0x2b, 0x00, 0x02, 0x03, 0x04, 0x00, 0x2b, 0x00, 0x02, 0x03, 0x03,
    ];
    assert!(matches!(
        TlsServerHello::try_from_bytes(&hello_body(&doubled)),
        Err(Error::Malformed(
            "duplicate supported_versions extension in ServerHello"
        ))
    ));

    let short_version = [0x00, 0x05, 0x00, 0x2b, 0x00, 0x01, 0x03];
    assert!(matches!(
        TlsServerHello::try_from_bytes(&hello_body(&short_version)),
        Err(Error::Malformed(
            "invalid supported_versions extension in ServerHello"
        ))
    ));

    let mut trailing = hello_body(&[0x00, 0x00]);
    trailing.push(0);
    assert!(matches!(
        TlsServerHello::try_from_bytes(&trailing),
        Err(Error::Malformed("trailing bytes after ServerHello extensions"))
    ));
}

#[test]
fn alpn_protocol_checks() {
    let none = TlsServerHello::try_from_bytes(&hello_body(&[])).unwrap();
    assert_eq!(none.alpn_protocol().unwrap(), None);

    let two = [
        0x00, 0x0a, 0x00, 0x10, 0x00, 0x06, 0x00, 0x04, 0x01, b'a', 0x01, b'b',
    ];
    let hello = TlsServerHello::try_from_bytes(&hello_body(&two)).unwrap();
    assert!(matches!(
        hello.alpn_protocol(),
        Err(Error::Malformed(
            "ServerHello ALPN extension contains multiple protocols"
        ))
    ));

    let not_utf8 = [0x00, 0x08, 0x00, 0x10, 0x00, 0x04, 0x00, 0x02, 0x01, 0xff];
    let hello = TlsServerHello::try_from_bytes(&hello_body(&not_utf8)).unwrap();
    assert!(matches!(
        hello.alpn_protocol(),
        Err(Error::Malformed("ServerHello ALPN protocol is not valid UTF-8"))
    ));

    let text = [
        0x00, 0x0f, 0x00, 0x10, 0x00, 0x0b, 0x00, 0x09, 0x08, b'h', b't', b't', b'p', b'/', b'1',
        b'.', b'1',
    ];
    let hello = TlsServerHello::try_from_bytes(&hello_body(&text)).unwrap();
    assert_eq!(hello.alpn_protocol().unwrap(), Some("http/1.1"));
}

#[test]
fn decoder_reassembles_at_every_split_and_skips_other_records() {
    let body = hello_body(&[0x00, 0x06, 0x00, 0x2b, 0x00, 0x02, 0x03, 0x04]);
    let mut handshake = vec![2, 0, 0, body.len() as u8];
    handshake.extend_from_slice(&body);

    for split in 0..handshake.len() {
        let mut decoder = ServerHelloDecoder::new();
        let alert = TlsRecord::new(TlsContentType(21), TlsVersion::TLS12(), &[2, 40]);
        assert!(decoder.push_record(&alert).unwrap().is_none());
        let first = TlsRecord::new(TlsContentType::HANDSHAKE(), TlsVersion::TLS12(), &handshake[..split]);
        let second = TlsRecord::new(TlsContentType::HANDSHAKE(), TlsVersion::TLS12(), &handshake[split..]);
        assert!(decoder.push_record(&first).unwrap().is_none());
        let hello = decoder.push_record(&second).unwrap().unwrap();
        assert_eq!(hello.tls_version(), TlsVersion::TLS13());
        assert_eq!(hello.random(), &[0x11; 32]);
    }
}

#[test]
fn decoder_refuses_another_handshake_message() {
    let mut decoder = ServerHelloDecoder::default();
    let payload = [TlsHandshakeType::CLIENT_HELLO().as_u8(), 0, 0, 0];
    let record = TlsRecord::new(TlsContentType::HANDSHAKE(), TlsVersion::TLS12(), &payload);
    assert!(matches!(
        decoder.push_record(&record),
        Err(Error::Malformed("expected ServerHello"))
    ));
}

#[test]
fn errors_describe_themselves() {
    assert_eq!(
        Error::LengthOverflow {
            max: 65535,
            actual: 70005
        }
        .to_string(),
        "length exceeds maximum: 70005 > 65535"
    );
    assert_eq!(
        Error::UnexpectedEof {
            needed: 5,
            remaining: 2
        }
        .to_string(),
        "unexpected end of data: needed 5 bytes, but only 2 remain"
    );
    assert_eq!(
        Error::Malformed("expected ServerHello").to_string(),
        "malformed data: expected ServerHello"
    );
}

#[test]
fn versions_and_constants() {
    assert_eq!(TlsVersion::TLS13().legacy_version(), TlsVersion::TLS12());
    assert_eq!(TlsVersion::TLS11().legacy_version(), TlsVersion::TLS11());
    assert_eq!(TlsVersion::TLS12().as_u16(), 0x0303);
    assert_eq!(TlsContentType::HANDSHAKE().as_u8(), 22);
    assert_eq!(TlsHandshakeType::SERVER_HELLO().as_u8(), 2);
}

#[test]
fn decoder_takes_records_from_a_byte_stream() {
    let body = hello_body(&[0x00, 0x06, 0x00, 0x2b, 0x00, 0x02, 0x03, 0x04]);
    let mut handshake = vec![2, 0, 0, body.len() as u8];
    handshake.extend_from_slice(&body);

    let mut stream = vec![21, 3, 3, 0, 2, 2, 40];
    for part in [&handshake[..10], &handshake[10..]] {
        stream.extend_from_slice(&[22, 3, 3, 0, part.len() as u8]);
        stream.extend_from_slice(part);
    }

    for chunk in [1, 3, 7, 16, stream.len()] {
        let mut decoder = ServerHelloDecoder::new();
        let mut received = Vec::new();
        let mut found = None;
        for piece in stream.chunks(chunk) {
            received.extend_from_slice(piece);
            let (consumed, hello) = decoder.push_records(&received).unwrap();
            received.drain(..consumed);
            if hello.is_some() {
                found = hello;
                break;
            }
        }
        let hello = found.unwrap();
        assert_eq!(hello.tls_version(), TlsVersion::TLS13());
        assert!(received.is_empty());
    }
}

#[test]
fn decoder_leaves_an_incomplete_record_and_reports_a_bad_one() {
    let mut decoder = ServerHelloDecoder::new();
    assert!(matches!(decoder.push_records(&[22, 3, 3]), Ok((0, None))));
    assert!(matches!(
        decoder.push_records(&[22, 3, 3, 0, 4, 1, 0, 0, 0, 22]),
        Err(Error::Malformed("expected ServerHello"))
    ));
}

#[test]
fn client_hello_encodes_back_to_the_parsed_bytes() {
    let mut with_block = vec![0x03, 0x03];
    with_block.extend_from_slice(&[0x44; 32]);
    with_block.extend_from_slice(&[2, 0xaa, 0xbb, 0x00, 0x04, 0x13, 0x01, 0xc0, 0x2f, 2, 0, 1]);
    with_block.extend_from_slice(&[0x00, 0x07, 0x00, 0x0a, 0x00, 0x03, 0x00, 0x01, 0x1d]);
    let hello = TlsClientHello::try_from_bytes(&with_block).unwrap();
    assert_eq!(hello.try_to_bytes().unwrap(), with_block);

    let without_block = with_block[..with_block.len() - 9].to_vec();
    let hello = TlsClientHello::try_from_bytes(&without_block).unwrap();
    let mut expected = without_block.clone();
    expected.extend_from_slice(&[0, 0]);
    assert_eq!(hello.try_to_bytes().unwrap(), expected);
}

#[test]
fn decoder_reassembles_over_many_records_with_others_between() {
    let body = hello_body(&[0x00, 0x06, 0x00, 0x2b, 0x00, 0x02, 0x03, 0x04]);
    let mut handshake = vec![2, 0, 0, body.len() as u8];
    handshake.extend_from_slice(&body);

    let mut decoder = ServerHelloDecoder::new();
    let pieces = [&handshake[..1], &handshake[1..3], &handshake[3..20], &handshake[20..]];
    for (i, piece) in pieces.iter().enumerate() {
        let alert = TlsRecord::new(TlsContentType(21), TlsVersion::TLS12(), &[1, 0]);
        assert!(decoder.push_record(&alert).unwrap().is_none());
        let record = TlsRecord::new(TlsContentType::HANDSHAKE(), TlsVersion::TLS12(), piece);
        let answer = decoder.push_record(&record).unwrap();
        if i + 1 < pieces.len() {
            assert!(answer.is_none());
        } else {
            assert_eq!(answer.unwrap().tls_version(), TlsVersion::TLS13());
        }
    }

    // The decoder is empty again: a second message decodes from scratch.
    let record = TlsRecord::new(TlsContentType::HANDSHAKE(), TlsVersion::TLS12(), &handshake);
    assert!(decoder.push_record(&record).unwrap().is_some());
}
