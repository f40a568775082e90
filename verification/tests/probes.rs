use netfp::jarm::{generate_jarm_probes_with, JarmProbeEntropy};
use netfp::tls::{
    Grease, TlsClientHello, TlsContentType, TlsExtensionType, TlsHandshake, TlsHandshakeType,
    TlsRecord, TlsVersion,
};
use netfp::{generate_jarm_probes, Error};

fn fixed_entropy(seed: u8, grease: u16) -> [JarmProbeEntropy; 10] {
    core::array::from_fn(|i| JarmProbeEntropy {
        random: [seed.wrapping_add(i as u8); 32],
        session_id: [seed ^ 0x55; 32],
        key_share: [seed.wrapping_mul(3); 32],
        grease_suite: Grease::new(grease).unwrap(),
        grease_extension: Grease::new(grease).unwrap(),
        grease_key_share: Grease::new(grease).unwrap(),
        grease_version: Grease::new(grease).unwrap(),
    })
}

/// Reads a probe back: one record, holding one `ClientHello` handshake.
fn read_probe(probe: &[u8]) -> (TlsVersion, TlsClientHello) {
    let (record, consumed) = TlsRecord::try_from_bytes(probe).unwrap();
    assert_eq!(consumed, probe.len());
    assert_eq!(record.content_type(), &TlsContentType::HANDSHAKE());
    let (handshake, used) = TlsHandshake::try_from_bytes(record.payload()).unwrap();
    assert_eq!(used, record.payload().len());
    assert_eq!(handshake.handshake_type(), TlsHandshakeType::CLIENT_HELLO());
    (
        *record.legacy_version(),
        TlsClientHello::try_from_bytes(handshake.body()).unwrap(),
    )
}

#[test]
fn generates_ten_client_hello_records() {
    let probes = generate_jarm_probes("example.com").unwrap();
    assert_eq!(probes.len(), 10);

    let record_versions = [
        TlsVersion::TLS12(),
        TlsVersion::TLS12(),
        TlsVersion::TLS12(),
        TlsVersion::TLS12(),
        TlsVersion::TLS12(),
        TlsVersion::TLS11(),
        TlsVersion::TLS10(),
        TlsVersion::TLS10(),
        TlsVersion::TLS10(),
        TlsVersion::TLS10(),
    ];
    let hello_versions = [
        TlsVersion::TLS12(),
        TlsVersion::TLS12(),
        TlsVersion::TLS12(),
        TlsVersion::TLS12(),
        TlsVersion::TLS12(),
        TlsVersion::TLS11(),
        TlsVersion::TLS12(),
        TlsVersion::TLS12(),
        TlsVersion::TLS12(),
        TlsVersion::TLS12(),
    ];
    // All 69 suites; top half 35; bottom half 34; a GREASE value and all 69;
    // the 64 suites without TLS 1.3 ones.
    let suite_counts = [69, 69, 35, 34, 70, 69, 69, 69, 64, 70];

    for (i, probe) in probes.iter().enumerate() {
        let (record_version, hello) = read_probe(probe);
        assert_eq!(record_version, record_versions[i]);
        assert_eq!(hello.legacy_version(), hello_versions[i]);
        assert_eq!(hello.cipher_suites().len(), suite_counts[i]);
        assert_eq!(hello.compression_methods(), &[0]);
        assert_eq!(hello.session_id().len(), 32);
    }
}

#[test]
fn probes_name_the_host_and_order_their_suites() {
    let probes = generate_jarm_probes_with("example.com", &fixed_entropy(1, 0x3a3a)).unwrap();

    let (_, forward) = read_probe(&probes[0]);
    let (_, reverse) = read_probe(&probes[1]);
    let (_, middle_out) = read_probe(&probes[4]);

    // Forward starts with the first suite of the list; reverse ends with it.
    assert_eq!(forward.cipher_suites()[0].as_u16(), 0x0016);
    assert_eq!(reverse.cipher_suites()[68].as_u16(), 0x0016);
    assert_eq!(reverse.cipher_suites()[0].as_u16(), 0x0005);
    // A GREASE probe leads with its GREASE value, then the middle suite.
    assert_eq!(middle_out.cipher_suites()[0].as_u16(), 0x3a3a);
    assert_eq!(middle_out.cipher_suites()[1].as_u16(), 0xc012);

    let server_name = &forward.extensions()[0];
    assert_eq!(server_name.extension_type(), TlsExtensionType::SERVER_NAME());
    let mut expected = vec![0, 14, 0, 0, 11];
    expected.extend_from_slice(b"example.com");
    assert_eq!(server_name.extension_data(), expected.as_slice());

    let grease_first = &middle_out.extensions()[0];
    assert_eq!(grease_first.extension_type().as_u16(), 0x3a3a);
    assert!(grease_first.extension_data().is_empty());
}

#[test]
fn probes_carry_their_random_values() {
    let entropy = fixed_entropy(9, 0x0a0a);
    let first = generate_jarm_probes_with("example.org", &entropy).unwrap();
    let second = generate_jarm_probes_with("example.org", &entropy).unwrap();
    assert_eq!(first, second);

    for (i, probe) in first.iter().enumerate() {
        let (_, hello) = read_probe(probe);
        assert_eq!(hello.random(), &entropy[i].random);
        assert_eq!(hello.session_id(), &entropy[i].session_id);
    }
}

#[test]
fn rejects_a_host_too_long_for_server_name() {
    let host = "a".repeat(70_000);
    let error = generate_jarm_probes(&host).unwrap_err();

    assert!(matches!(
        error,
        Error::LengthOverflow {
            max: 65535,
            actual: 70_005
        }
    ));
}

#[test]
fn rejects_a_host_too_long_for_one_record_whatever_the_random_values() {
    let short = generate_jarm_probes_with("example.com", &fixed_entropy(1, 0x1a1a)).unwrap();
    let payload = short[0].len() - 5;
    let host = "b".repeat(20_000);

    let first = generate_jarm_probes_with(&host, &fixed_entropy(2, 0x2a2a)).unwrap_err();
    let second = generate_jarm_probes_with(&host, &fixed_entropy(3, 0xfafa)).unwrap_err();

    match first {
        Error::LengthOverflow { max, actual } => {
            assert_eq!(max, 16384);
            assert_eq!(actual, payload - 11 + 20_000);
        }
        other => panic!("unexpected error {other:?}"),
    }
    assert!(matches!(
        second,
        Error::LengthOverflow { max: 16384, actual } if actual == payload - 11 + 20_000
    ));
}

#[test]
fn grease_values_are_reserved_code_points() {
    for _ in 0..32 {
        let grease = Grease::random();
        assert!(Grease::is_grease(grease.as_u16()));
    }
    assert!(Grease::new(0x1a1a).is_some());
    assert!(Grease::new(0x1a1b).is_none());
    assert_eq!(Grease::new(0xfafa).unwrap().to_be_bytes(), [0xfa, 0xfa]);
}

#[test]
fn builds_probes_for_a_long_host_within_the_limit() {
    let host = "c".repeat(15_000);
    let probes = generate_jarm_probes(&host).unwrap();
    assert_eq!(probes.len(), 10);
    for probe in &probes {
        let (_, hello) = read_probe(probe);
        let server_name = &hello.extensions()
            .iter()
            .find(|e| e.extension_type() == TlsExtensionType::SERVER_NAME())
            .unwrap();
        assert_eq!(server_name.extension_data().len(), 15_005);
    }
}

#[test]
fn grease_from_a_random_byte_uses_its_low_four_bits() {
    assert_eq!(Grease::from_random_byte(0).as_u16(), 0x0a0a);
    assert_eq!(Grease::from_random_byte(1).as_u16(), 0x1a1a);
    assert_eq!(Grease::from_random_byte(0x0f).as_u16(), 0xfafa);
    assert_eq!(Grease::from_random_byte(0x35).as_u16(), 0x5a5a);
    assert_eq!(Grease::from_random_byte(0xff).as_u16(), 0xfafa);
}
