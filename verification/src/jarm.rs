//! JARM active TLS server fingerprinting.
//!
//! JARM sends ten specially ordered `ClientHello` probes to a server and
//! condenses the ten answers into a 62-character fingerprint. The algorithm
//! was created by Salesforce (JARM 1.0, BSD 3-Clause License).
use vstd::prelude::*;
use vstd::string::{StrSliceExecFns, StringSliceAdditionalSpecFns};

use crate::digest::{sha256_digest, sha256_of};
use crate::error::{overflow, Error};
use crate::text::{ascii_chars, ascii_string, dash_join, hex_digit, hex_lower, push_hex_byte};
use crate::tls::{
    client_hello_valid, encode_client_hello, encode_extensions, encode_handshake, encode_record,
    extension_fits, extension_models, is_grease_value, law_client_hello_round_trip,
    law_handshake_round_trip, law_record_round_trip, legacy_version_of, lemma_encode_extensions_push,
    new_client_hello, new_client_hello_error, parse_client_hello, parse_handshake, parse_record,
    selected_alpn, suite_values, AlpnProtocol, ClientHelloModel, ExtensionModel, Grease,
    HandshakeModel, RecordModel, ServerHelloModel, TlsCipherSuite, TlsClientHello, TlsContentType,
    TlsExtension, TlsExtensionType, TlsHandshake, TlsHandshakeType, TlsPskKeyExchangeMode,
    TlsRecord, TlsServerHello, TlsSignatureAlgorithm, TlsSupportedGroup, TlsVersion,
};
use crate::utils::random_32_bytes;
use crate::wire::{be16, be16_list, u16_to_be};

verus! {

/// The number of probes JARM sends.
pub const JARM_PROBE_COUNT: usize = 10;

/// The cipher suites in the order JARM numbers a server's choice by; TLS 1.3
/// suites deliberately come last.
pub open spec fn jarm_cipher_order() -> Seq<u16> {
    seq![
        0x0004u16, // TLS_RSA_WITH_RC4_128_MD5
        0x0005u16, // TLS_RSA_WITH_RC4_128_SHA
        0x0007u16, // TLS_RSA_WITH_IDEA_CBC_SHA
        0x000au16, // TLS_RSA_WITH_3DES_EDE_CBC_SHA
        0x0016u16, // TLS_DHE_RSA_WITH_3DES_EDE_CBC_SHA
        0x002fu16, // TLS_RSA_WITH_AES_128_CBC_SHA
        0x0033u16, // TLS_DHE_RSA_WITH_AES_128_CBC_SHA
        0x0035u16, // TLS_RSA_WITH_AES_256_CBC_SHA
        0x0039u16, // TLS_DHE_RSA_WITH_AES_256_CBC_SHA
        0x003cu16, // TLS_RSA_WITH_AES_128_CBC_SHA256
        0x003du16, // TLS_RSA_WITH_AES_256_CBC_SHA256
        0x0041u16, // TLS_RSA_WITH_CAMELLIA_128_CBC_SHA
        0x0045u16, // TLS_DHE_RSA_WITH_CAMELLIA_128_CBC_SHA
        0x0067u16, // TLS_DHE_RSA_WITH_AES_128_CBC_SHA256
        0x006bu16, // TLS_DHE_RSA_WITH_AES_256_CBC_SHA256
        0x0084u16, // TLS_RSA_WITH_CAMELLIA_256_CBC_SHA
        0x0088u16, // TLS_DHE_RSA_WITH_CAMELLIA_256_CBC_SHA
        0x009au16, // TLS_DHE_RSA_WITH_SEED_CBC_SHA
        0x009cu16, // TLS_RSA_WITH_AES_128_GCM_SHA256
        0x009du16, // TLS_RSA_WITH_AES_256_GCM_SHA384
        0x009eu16, // TLS_DHE_RSA_WITH_AES_128_GCM_SHA256
        0x009fu16, // TLS_DHE_RSA_WITH_AES_256_GCM_SHA384
        0x00bau16, // TLS_RSA_WITH_CAMELLIA_128_CBC_SHA256
        0x00beu16, // TLS_DHE_RSA_WITH_CAMELLIA_128_CBC_SHA256
        0x00c0u16, // TLS_RSA_WITH_CAMELLIA_256_CBC_SHA256
        0x00c4u16, // TLS_DHE_RSA_WITH_CAMELLIA_256_CBC_SHA256
        0xc007u16, // TLS_ECDHE_ECDSA_WITH_RC4_128_SHA
        0xc008u16, // TLS_ECDHE_ECDSA_WITH_3DES_EDE_CBC_SHA
        0xc009u16, // TLS_ECDHE_ECDSA_WITH_AES_128_CBC_SHA
        0xc00au16, // TLS_ECDHE_ECDSA_WITH_AES_256_CBC_SHA
        0xc011u16, // TLS_ECDHE_RSA_WITH_RC4_128_SHA
        0xc012u16, // TLS_ECDHE_RSA_WITH_3DES_EDE_CBC_SHA
        0xc013u16, // TLS_ECDHE_RSA_WITH_AES_128_CBC_SHA
        0xc014u16, // TLS_ECDHE_RSA_WITH_AES_256_CBC_SHA
        0xc023u16, // TLS_ECDHE_ECDSA_WITH_AES_128_CBC_SHA256
        0xc024u16, // TLS_ECDHE_ECDSA_WITH_AES_256_CBC_SHA384
        0xc027u16, // TLS_ECDHE_RSA_WITH_AES_128_CBC_SHA256
        0xc028u16, // TLS_ECDHE_RSA_WITH_AES_256_CBC_SHA384
        0xc02bu16, // TLS_ECDHE_ECDSA_WITH_AES_128_GCM_SHA256
        0xc02cu16, // TLS_ECDHE_ECDSA_WITH_AES_256_GCM_SHA384
        0xc02fu16, // TLS_ECDHE_RSA_WITH_AES_128_GCM_SHA256
        0xc030u16, // TLS_ECDHE_RSA_WITH_AES_256_GCM_SHA384
        0xc060u16, // TLS_ECDHE_RSA_WITH_ARIA_128_GCM_SHA256
        0xc061u16, // TLS_ECDHE_RSA_WITH_ARIA_256_GCM_SHA384
        0xc072u16, // TLS_ECDHE_ECDSA_WITH_CAMELLIA_128_CBC_SHA256
        0xc073u16, // TLS_ECDHE_ECDSA_WITH_CAMELLIA_256_CBC_SHA384
        0xc076u16, // TLS_ECDHE_RSA_WITH_CAMELLIA_128_CBC_SHA256
        0xc077u16, // TLS_ECDHE_RSA_WITH_CAMELLIA_256_CBC_SHA384
        0xc09cu16, // TLS_RSA_WITH_AES_128_CCM
        0xc09du16, // TLS_RSA_WITH_AES_256_CCM
        0xc09eu16, // TLS_DHE_RSA_WITH_AES_128_CCM
        0xc09fu16, // TLS_DHE_RSA_WITH_AES_256_CCM
        0xc0a0u16, // TLS_RSA_WITH_AES_128_CCM_8
        0xc0a1u16, // TLS_RSA_WITH_AES_256_CCM_8
        0xc0a2u16, // TLS_DHE_RSA_WITH_AES_128_CCM_8
        0xc0a3u16, // TLS_DHE_RSA_WITH_AES_256_CCM_8
        0xc0acu16, // TLS_ECDHE_ECDSA_WITH_AES_128_CCM
        0xc0adu16, // TLS_ECDHE_ECDSA_WITH_AES_256_CCM
        0xc0aeu16, // TLS_ECDHE_ECDSA_WITH_AES_128_CCM_8
        0xc0afu16, // TLS_ECDHE_ECDSA_WITH_AES_256_CCM_8
        0xcc13u16, // OLD_TLS_ECDHE_RSA_WITH_CHACHA20_POLY1305_SHA256
        0xcc14u16, // OLD_TLS_ECDHE_ECDSA_WITH_CHACHA20_POLY1305_SHA256
        0xcca8u16, // TLS_ECDHE_RSA_WITH_CHACHA20_POLY1305_SHA256
        0xcca9u16, // TLS_ECDHE_ECDSA_WITH_CHACHA20_POLY1305_SHA256
        0x1301u16, // TLS_AES_128_GCM_SHA256
        0x1302u16, // TLS_AES_256_GCM_SHA384
        0x1303u16, // TLS_CHACHA20_POLY1305_SHA256
        0x1304u16, // TLS_AES_128_CCM_SHA256
        0x1305u16, // TLS_AES_128_CCM_8_SHA256
    ]
}

/// Every cipher suite a JARM probe may offer.
pub open spec fn all_cipher_suites() -> Seq<u16> {
    seq![
        0x0016u16, // TLS_DHE_RSA_WITH_3DES_EDE_CBC_SHA
        0x0033u16, // TLS_DHE_RSA_WITH_AES_128_CBC_SHA
        0x0067u16, // TLS_DHE_RSA_WITH_AES_128_CBC_SHA256
        0xc09eu16, // TLS_DHE_RSA_WITH_AES_128_CCM
        0xc0a2u16, // TLS_DHE_RSA_WITH_AES_128_CCM_8
        0x009eu16, // TLS_DHE_RSA_WITH_AES_128_GCM_SHA256
        0x0039u16, // TLS_DHE_RSA_WITH_AES_256_CBC_SHA
        0x006bu16, // TLS_DHE_RSA_WITH_AES_256_CBC_SHA256
        0xc09fu16, // TLS_DHE_RSA_WITH_AES_256_CCM
        0xc0a3u16, // TLS_DHE_RSA_WITH_AES_256_CCM_8
        0x009fu16, // TLS_DHE_RSA_WITH_AES_256_GCM_SHA384
        0x0045u16, // TLS_DHE_RSA_WITH_CAMELLIA_128_CBC_SHA
        0x00beu16, // TLS_DHE_RSA_WITH_CAMELLIA_128_CBC_SHA256
        0x0088u16, // TLS_DHE_RSA_WITH_CAMELLIA_256_CBC_SHA
        0x00c4u16, // TLS_DHE_RSA_WITH_CAMELLIA_256_CBC_SHA256
        0x009au16, // TLS_DHE_RSA_WITH_SEED_CBC_SHA
        0xc008u16, // TLS_ECDHE_ECDSA_WITH_3DES_EDE_CBC_SHA
        0xc009u16, // TLS_ECDHE_ECDSA_WITH_AES_128_CBC_SHA
        0xc023u16, // TLS_ECDHE_ECDSA_WITH_AES_128_CBC_SHA256
        0xc0acu16, // TLS_ECDHE_ECDSA_WITH_AES_128_CCM
        0xc0aeu16, // TLS_ECDHE_ECDSA_WITH_AES_128_CCM_8
        0xc02bu16, // TLS_ECDHE_ECDSA_WITH_AES_128_GCM_SHA256
        0xc00au16, // TLS_ECDHE_ECDSA_WITH_AES_256_CBC_SHA
        0xc024u16, // TLS_ECDHE_ECDSA_WITH_AES_256_CBC_SHA384
        0xc0adu16, // TLS_ECDHE_ECDSA_WITH_AES_256_CCM
        0xc0afu16, // TLS_ECDHE_ECDSA_WITH_AES_256_CCM_8
        0xc02cu16, // TLS_ECDHE_ECDSA_WITH_AES_256_GCM_SHA384
        0xc072u16, // TLS_ECDHE_ECDSA_WITH_CAMELLIA_128_CBC_SHA256
        0xc073u16, // TLS_ECDHE_ECDSA_WITH_CAMELLIA_256_CBC_SHA384
        0xcca9u16, // TLS_ECDHE_ECDSA_WITH_CHACHA20_POLY1305_SHA256
        0x1302u16, // TLS_AES_256_GCM_SHA384
        0x1301u16, // TLS_AES_128_GCM_SHA256
        0xcc14u16, // OLD_TLS_ECDHE_ECDSA_WITH_CHACHA20_POLY1305_SHA256
        0xc007u16, // TLS_ECDHE_ECDSA_WITH_RC4_128_SHA
        0xc012u16, // TLS_ECDHE_RSA_WITH_3DES_EDE_CBC_SHA
        0xc013u16, // TLS_ECDHE_RSA_WITH_AES_128_CBC_SHA
        0xc027u16, // TLS_ECDHE_RSA_WITH_AES_128_CBC_SHA256
        0xc02fu16, // TLS_ECDHE_RSA_WITH_AES_128_GCM_SHA256
        0xc014u16, // TLS_ECDHE_RSA_WITH_AES_256_CBC_SHA
        0xc028u16, // TLS_ECDHE_RSA_WITH_AES_256_CBC_SHA384
        0xc030u16, // TLS_ECDHE_RSA_WITH_AES_256_GCM_SHA384
        0xc060u16, // TLS_ECDHE_RSA_WITH_ARIA_128_GCM_SHA256
        0xc061u16, // TLS_ECDHE_RSA_WITH_ARIA_256_GCM_SHA384
        0xc076u16, // TLS_ECDHE_RSA_WITH_CAMELLIA_128_CBC_SHA256
        0xc077u16, // TLS_ECDHE_RSA_WITH_CAMELLIA_256_CBC_SHA384
        0xcca8u16, // TLS_ECDHE_RSA_WITH_CHACHA20_POLY1305_SHA256
        0x1305u16, // TLS_AES_128_CCM_8_SHA256
        0x1304u16, // TLS_AES_128_CCM_SHA256
        0x1303u16, // TLS_CHACHA20_POLY1305_SHA256
        0xcc13u16, // OLD_TLS_ECDHE_RSA_WITH_CHACHA20_POLY1305_SHA256
        0xc011u16, // TLS_ECDHE_RSA_WITH_RC4_128_SHA
        0x000au16, // TLS_RSA_WITH_3DES_EDE_CBC_SHA
        0x002fu16, // TLS_RSA_WITH_AES_128_CBC_SHA
        0x003cu16, // TLS_RSA_WITH_AES_128_CBC_SHA256
        0xc09cu16, // TLS_RSA_WITH_AES_128_CCM
        0xc0a0u16, // TLS_RSA_WITH_AES_128_CCM_8
        0x009cu16, // TLS_RSA_WITH_AES_128_GCM_SHA256
        0x0035u16, // TLS_RSA_WITH_AES_256_CBC_SHA
        0x003du16, // TLS_RSA_WITH_AES_256_CBC_SHA256
        0xc09du16, // TLS_RSA_WITH_AES_256_CCM
        0xc0a1u16, // TLS_RSA_WITH_AES_256_CCM_8
        0x009du16, // TLS_RSA_WITH_AES_256_GCM_SHA384
        0x0041u16, // TLS_RSA_WITH_CAMELLIA_128_CBC_SHA
        0x00bau16, // TLS_RSA_WITH_CAMELLIA_128_CBC_SHA256
        0x0084u16, // TLS_RSA_WITH_CAMELLIA_256_CBC_SHA
        0x00c0u16, // TLS_RSA_WITH_CAMELLIA_256_CBC_SHA256
        0x0007u16, // TLS_RSA_WITH_IDEA_CBC_SHA
        0x0004u16, // TLS_RSA_WITH_RC4_128_MD5
        0x0005u16, // TLS_RSA_WITH_RC4_128_SHA
    ]
}

/// The cipher suites of [`all_cipher_suites`] without the TLS 1.3 ones.
pub open spec fn no_tls13_cipher_suites() -> Seq<u16> {
    seq![
        0x0016u16, // TLS_DHE_RSA_WITH_3DES_EDE_CBC_SHA
        0x0033u16, // TLS_DHE_RSA_WITH_AES_128_CBC_SHA
        0x0067u16, // TLS_DHE_RSA_WITH_AES_128_CBC_SHA256
        0xc09eu16, // TLS_DHE_RSA_WITH_AES_128_CCM
        0xc0a2u16, // TLS_DHE_RSA_WITH_AES_128_CCM_8
        0x009eu16, // TLS_DHE_RSA_WITH_AES_128_GCM_SHA256
        0x0039u16, // TLS_DHE_RSA_WITH_AES_256_CBC_SHA
        0x006bu16, // TLS_DHE_RSA_WITH_AES_256_CBC_SHA256
        0xc09fu16, // TLS_DHE_RSA_WITH_AES_256_CCM
        0xc0a3u16, // TLS_DHE_RSA_WITH_AES_256_CCM_8
        0x009fu16, // TLS_DHE_RSA_WITH_AES_256_GCM_SHA384
        0x0045u16, // TLS_DHE_RSA_WITH_CAMELLIA_128_CBC_SHA
        0x00beu16, // TLS_DHE_RSA_WITH_CAMELLIA_128_CBC_SHA256
        0x0088u16, // TLS_DHE_RSA_WITH_CAMELLIA_256_CBC_SHA
        0x00c4u16, // TLS_DHE_RSA_WITH_CAMELLIA_256_CBC_SHA256
        0x009au16, // TLS_DHE_RSA_WITH_SEED_CBC_SHA
        0xc008u16, // TLS_ECDHE_ECDSA_WITH_3DES_EDE_CBC_SHA
        0xc009u16, // TLS_ECDHE_ECDSA_WITH_AES_128_CBC_SHA
        0xc023u16, // TLS_ECDHE_ECDSA_WITH_AES_128_CBC_SHA256
        0xc0acu16, // TLS_ECDHE_ECDSA_WITH_AES_128_CCM
        0xc0aeu16, // TLS_ECDHE_ECDSA_WITH_AES_128_CCM_8
        0xc02bu16, // TLS_ECDHE_ECDSA_WITH_AES_128_GCM_SHA256
        0xc00au16, // TLS_ECDHE_ECDSA_WITH_AES_256_CBC_SHA
        0xc024u16, // TLS_ECDHE_ECDSA_WITH_AES_256_CBC_SHA384
        0xc0adu16, // TLS_ECDHE_ECDSA_WITH_AES_256_CCM
        0xc0afu16, // TLS_ECDHE_ECDSA_WITH_AES_256_CCM_8
        0xc02cu16, // TLS_ECDHE_ECDSA_WITH_AES_256_GCM_SHA384
        0xc072u16, // TLS_ECDHE_ECDSA_WITH_CAMELLIA_128_CBC_SHA256
        0xc073u16, // TLS_ECDHE_ECDSA_WITH_CAMELLIA_256_CBC_SHA384
        0xcca9u16, // TLS_ECDHE_ECDSA_WITH_CHACHA20_POLY1305_SHA256
        0xcc14u16, // OLD_TLS_ECDHE_ECDSA_WITH_CHACHA20_POLY1305_SHA256
        0xc007u16, // TLS_ECDHE_ECDSA_WITH_RC4_128_SHA
        0xc012u16, // TLS_ECDHE_RSA_WITH_3DES_EDE_CBC_SHA
        0xc013u16, // TLS_ECDHE_RSA_WITH_AES_128_CBC_SHA
        0xc027u16, // TLS_ECDHE_RSA_WITH_AES_128_CBC_SHA256
        0xc02fu16, // TLS_ECDHE_RSA_WITH_AES_128_GCM_SHA256
        0xc014u16, // TLS_ECDHE_RSA_WITH_AES_256_CBC_SHA
        0xc028u16, // TLS_ECDHE_RSA_WITH_AES_256_CBC_SHA384
        0xc030u16, // TLS_ECDHE_RSA_WITH_AES_256_GCM_SHA384
        0xc060u16, // TLS_ECDHE_RSA_WITH_ARIA_128_GCM_SHA256
        0xc061u16, // TLS_ECDHE_RSA_WITH_ARIA_256_GCM_SHA384
        0xc076u16, // TLS_ECDHE_RSA_WITH_CAMELLIA_128_CBC_SHA256
        0xc077u16, // TLS_ECDHE_RSA_WITH_CAMELLIA_256_CBC_SHA384
        0xcca8u16, // TLS_ECDHE_RSA_WITH_CHACHA20_POLY1305_SHA256
        0xcc13u16, // OLD_TLS_ECDHE_RSA_WITH_CHACHA20_POLY1305_SHA256
        0xc011u16, // TLS_ECDHE_RSA_WITH_RC4_128_SHA
        0x000au16, // TLS_RSA_WITH_3DES_EDE_CBC_SHA
        0x002fu16, // TLS_RSA_WITH_AES_128_CBC_SHA
        0x003cu16, // TLS_RSA_WITH_AES_128_CBC_SHA256
        0xc09cu16, // TLS_RSA_WITH_AES_128_CCM
        0xc0a0u16, // TLS_RSA_WITH_AES_128_CCM_8
        0x009cu16, // TLS_RSA_WITH_AES_128_GCM_SHA256
        0x0035u16, // TLS_RSA_WITH_AES_256_CBC_SHA
        0x003du16, // TLS_RSA_WITH_AES_256_CBC_SHA256
        0xc09du16, // TLS_RSA_WITH_AES_256_CCM
        0xc0a1u16, // TLS_RSA_WITH_AES_256_CCM_8
        0x009du16, // TLS_RSA_WITH_AES_256_GCM_SHA384
        0x0041u16, // TLS_RSA_WITH_CAMELLIA_128_CBC_SHA
        0x00bau16, // TLS_RSA_WITH_CAMELLIA_128_CBC_SHA256
        0x0084u16, // TLS_RSA_WITH_CAMELLIA_256_CBC_SHA
        0x00c0u16, // TLS_RSA_WITH_CAMELLIA_256_CBC_SHA256
        0x0007u16, // TLS_RSA_WITH_IDEA_CBC_SHA
        0x0004u16, // TLS_RSA_WITH_RC4_128_MD5
        0x0005u16, // TLS_RSA_WITH_RC4_128_SHA
    ]
}

/// The signature algorithms every probe offers.
pub open spec fn jarm_signature_algorithms() -> Seq<u16> {
    seq![
        0x0403u16, // ECDSA_SECP256R1_SHA256
        0x0804u16, // RSA_PSS_RSAE_SHA256
        0x0401u16, // RSA_PKCS1_SHA256
        0x0503u16, // ECDSA_SECP384R1_SHA384
        0x0805u16, // RSA_PSS_RSAE_SHA384
        0x0501u16, // RSA_PKCS1_SHA384
        0x0806u16, // RSA_PSS_RSAE_SHA512
        0x0601u16, // RSA_PKCS1_SHA512
        0x0201u16, // RSA_PKCS1_SHA1
    ]
}

/// The groups every probe offers.
pub open spec fn jarm_supported_groups() -> Seq<u16> {
    seq![
        0x001du16, // X25519
        0x0017u16, // SECP256R1
        0x0018u16, // SECP384R1
        0x0019u16, // SECP521R1
    ]
}

/// The versions a TLS 1.2 profile lists.
pub open spec fn tls12_supported_versions() -> Seq<u16> {
    seq![
        0x0301u16, // TLS10
        0x0302u16, // TLS11
        0x0303u16, // TLS12
    ]
}

/// The versions a TLS 1.3 profile lists.
pub open spec fn tls13_supported_versions() -> Seq<u16> {
    seq![
        0x0301u16, // TLS10
        0x0302u16, // TLS11
        0x0303u16, // TLS12
        0x0304u16, // TLS13
    ]
}

/// The complete canonical JARM ALPN list.
pub open spec fn all_alpns() -> Seq<Seq<u8>> {
    seq![
        seq![104u8, 116u8, 116u8, 112u8, 47u8, 48u8, 46u8, 57u8], // http/0.9
        seq![104u8, 116u8, 116u8, 112u8, 47u8, 49u8, 46u8, 48u8], // http/1.0
        seq![104u8, 116u8, 116u8, 112u8, 47u8, 49u8, 46u8, 49u8], // http/1.1
        seq![115u8, 112u8, 100u8, 121u8, 47u8, 49u8], // spdy/1
        seq![115u8, 112u8, 100u8, 121u8, 47u8, 50u8], // spdy/2
        seq![115u8, 112u8, 100u8, 121u8, 47u8, 51u8], // spdy/3
        seq![104u8, 50u8], // h2
        seq![104u8, 50u8, 99u8], // h2c
        seq![104u8, 113u8], // hq
    ]
}

/// The reduced ALPN list that omits HTTP/1.1 and HTTP/2.
pub open spec fn rare_alpns() -> Seq<Seq<u8>> {
    seq![
        seq![104u8, 116u8, 116u8, 112u8, 47u8, 48u8, 46u8, 57u8], // http/0.9
        seq![104u8, 116u8, 116u8, 112u8, 47u8, 49u8, 46u8, 48u8], // http/1.0
        seq![115u8, 112u8, 100u8, 121u8, 47u8, 49u8], // spdy/1
        seq![115u8, 112u8, 100u8, 121u8, 47u8, 50u8], // spdy/2
        seq![115u8, 112u8, 100u8, 121u8, 47u8, 51u8], // spdy/3
        seq![104u8, 50u8, 99u8], // h2c
        seq![104u8, 113u8], // hq
    ]
}

fn jarm_cipher_order_list() -> (r: Vec<TlsCipherSuite>)
    ensures
        suite_values(r@) == jarm_cipher_order(),
{
    let r = vec![
        TlsCipherSuite::TLS_RSA_WITH_RC4_128_MD5(),
        TlsCipherSuite::TLS_RSA_WITH_RC4_128_SHA(),
        TlsCipherSuite::TLS_RSA_WITH_IDEA_CBC_SHA(),
        TlsCipherSuite::TLS_RSA_WITH_3DES_EDE_CBC_SHA(),
        TlsCipherSuite::TLS_DHE_RSA_WITH_3DES_EDE_CBC_SHA(),
        TlsCipherSuite::TLS_RSA_WITH_AES_128_CBC_SHA(),
        TlsCipherSuite::TLS_DHE_RSA_WITH_AES_128_CBC_SHA(),
        TlsCipherSuite::TLS_RSA_WITH_AES_256_CBC_SHA(),
        TlsCipherSuite::TLS_DHE_RSA_WITH_AES_256_CBC_SHA(),
        TlsCipherSuite::TLS_RSA_WITH_AES_128_CBC_SHA256(),
        TlsCipherSuite::TLS_RSA_WITH_AES_256_CBC_SHA256(),
        TlsCipherSuite::TLS_RSA_WITH_CAMELLIA_128_CBC_SHA(),
        TlsCipherSuite::TLS_DHE_RSA_WITH_CAMELLIA_128_CBC_SHA(),
        TlsCipherSuite::TLS_DHE_RSA_WITH_AES_128_CBC_SHA256(),
        TlsCipherSuite::TLS_DHE_RSA_WITH_AES_256_CBC_SHA256(),
        TlsCipherSuite::TLS_RSA_WITH_CAMELLIA_256_CBC_SHA(),
        TlsCipherSuite::TLS_DHE_RSA_WITH_CAMELLIA_256_CBC_SHA(),
        TlsCipherSuite::TLS_DHE_RSA_WITH_SEED_CBC_SHA(),
        TlsCipherSuite::TLS_RSA_WITH_AES_128_GCM_SHA256(),
        TlsCipherSuite::TLS_RSA_WITH_AES_256_GCM_SHA384(),
        TlsCipherSuite::TLS_DHE_RSA_WITH_AES_128_GCM_SHA256(),
        TlsCipherSuite::TLS_DHE_RSA_WITH_AES_256_GCM_SHA384(),
        TlsCipherSuite::TLS_RSA_WITH_CAMELLIA_128_CBC_SHA256(),
        TlsCipherSuite::TLS_DHE_RSA_WITH_CAMELLIA_128_CBC_SHA256(),
        TlsCipherSuite::TLS_RSA_WITH_CAMELLIA_256_CBC_SHA256(),
        TlsCipherSuite::TLS_DHE_RSA_WITH_CAMELLIA_256_CBC_SHA256(),
        TlsCipherSuite::TLS_ECDHE_ECDSA_WITH_RC4_128_SHA(),
        TlsCipherSuite::TLS_ECDHE_ECDSA_WITH_3DES_EDE_CBC_SHA(),
        TlsCipherSuite::TLS_ECDHE_ECDSA_WITH_AES_128_CBC_SHA(),
        TlsCipherSuite::TLS_ECDHE_ECDSA_WITH_AES_256_CBC_SHA(),
        TlsCipherSuite::TLS_ECDHE_RSA_WITH_RC4_128_SHA(),
        TlsCipherSuite::TLS_ECDHE_RSA_WITH_3DES_EDE_CBC_SHA(),
        TlsCipherSuite::TLS_ECDHE_RSA_WITH_AES_128_CBC_SHA(),
        TlsCipherSuite::TLS_ECDHE_RSA_WITH_AES_256_CBC_SHA(),
        TlsCipherSuite::TLS_ECDHE_ECDSA_WITH_AES_128_CBC_SHA256(),
        TlsCipherSuite::TLS_ECDHE_ECDSA_WITH_AES_256_CBC_SHA384(),
        TlsCipherSuite::TLS_ECDHE_RSA_WITH_AES_128_CBC_SHA256(),
        TlsCipherSuite::TLS_ECDHE_RSA_WITH_AES_256_CBC_SHA384(),
        TlsCipherSuite::TLS_ECDHE_ECDSA_WITH_AES_128_GCM_SHA256(),
        TlsCipherSuite::TLS_ECDHE_ECDSA_WITH_AES_256_GCM_SHA384(),
        TlsCipherSuite::TLS_ECDHE_RSA_WITH_AES_128_GCM_SHA256(),
        TlsCipherSuite::TLS_ECDHE_RSA_WITH_AES_256_GCM_SHA384(),
        TlsCipherSuite::TLS_ECDHE_RSA_WITH_ARIA_128_GCM_SHA256(),
        TlsCipherSuite::TLS_ECDHE_RSA_WITH_ARIA_256_GCM_SHA384(),
        TlsCipherSuite::TLS_ECDHE_ECDSA_WITH_CAMELLIA_128_CBC_SHA256(),
        TlsCipherSuite::TLS_ECDHE_ECDSA_WITH_CAMELLIA_256_CBC_SHA384(),
        TlsCipherSuite::TLS_ECDHE_RSA_WITH_CAMELLIA_128_CBC_SHA256(),
        TlsCipherSuite::TLS_ECDHE_RSA_WITH_CAMELLIA_256_CBC_SHA384(),
        TlsCipherSuite::TLS_RSA_WITH_AES_128_CCM(),
        TlsCipherSuite::TLS_RSA_WITH_AES_256_CCM(),
        TlsCipherSuite::TLS_DHE_RSA_WITH_AES_128_CCM(),
        TlsCipherSuite::TLS_DHE_RSA_WITH_AES_256_CCM(),
        TlsCipherSuite::TLS_RSA_WITH_AES_128_CCM_8(),
        TlsCipherSuite::TLS_RSA_WITH_AES_256_CCM_8(),
        TlsCipherSuite::TLS_DHE_RSA_WITH_AES_128_CCM_8(),
        TlsCipherSuite::TLS_DHE_RSA_WITH_AES_256_CCM_8(),
        TlsCipherSuite::TLS_ECDHE_ECDSA_WITH_AES_128_CCM(),
        TlsCipherSuite::TLS_ECDHE_ECDSA_WITH_AES_256_CCM(),
        TlsCipherSuite::TLS_ECDHE_ECDSA_WITH_AES_128_CCM_8(),
        TlsCipherSuite::TLS_ECDHE_ECDSA_WITH_AES_256_CCM_8(),
        TlsCipherSuite::OLD_TLS_ECDHE_RSA_WITH_CHACHA20_POLY1305_SHA256(),
        TlsCipherSuite::OLD_TLS_ECDHE_ECDSA_WITH_CHACHA20_POLY1305_SHA256(),
        TlsCipherSuite::TLS_ECDHE_RSA_WITH_CHACHA20_POLY1305_SHA256(),
        TlsCipherSuite::TLS_ECDHE_ECDSA_WITH_CHACHA20_POLY1305_SHA256(),
        TlsCipherSuite::TLS_AES_128_GCM_SHA256(),
        TlsCipherSuite::TLS_AES_256_GCM_SHA384(),
        TlsCipherSuite::TLS_CHACHA20_POLY1305_SHA256(),
        TlsCipherSuite::TLS_AES_128_CCM_SHA256(),
        TlsCipherSuite::TLS_AES_128_CCM_8_SHA256(),
    ];
    assert(suite_values(r@) =~= jarm_cipher_order());
    r
}

fn all_cipher_suites_list() -> (r: Vec<TlsCipherSuite>)
    ensures
        suite_values(r@) == all_cipher_suites(),
{
    let r = vec![
        TlsCipherSuite::TLS_DHE_RSA_WITH_3DES_EDE_CBC_SHA(),
        TlsCipherSuite::TLS_DHE_RSA_WITH_AES_128_CBC_SHA(),
        TlsCipherSuite::TLS_DHE_RSA_WITH_AES_128_CBC_SHA256(),
        TlsCipherSuite::TLS_DHE_RSA_WITH_AES_128_CCM(),
        TlsCipherSuite::TLS_DHE_RSA_WITH_AES_128_CCM_8(),
        TlsCipherSuite::TLS_DHE_RSA_WITH_AES_128_GCM_SHA256(),
        TlsCipherSuite::TLS_DHE_RSA_WITH_AES_256_CBC_SHA(),
        TlsCipherSuite::TLS_DHE_RSA_WITH_AES_256_CBC_SHA256(),
        TlsCipherSuite::TLS_DHE_RSA_WITH_AES_256_CCM(),
        TlsCipherSuite::TLS_DHE_RSA_WITH_AES_256_CCM_8(),
        TlsCipherSuite::TLS_DHE_RSA_WITH_AES_256_GCM_SHA384(),
        TlsCipherSuite::TLS_DHE_RSA_WITH_CAMELLIA_128_CBC_SHA(),
        TlsCipherSuite::TLS_DHE_RSA_WITH_CAMELLIA_128_CBC_SHA256(),
        TlsCipherSuite::TLS_DHE_RSA_WITH_CAMELLIA_256_CBC_SHA(),
        TlsCipherSuite::TLS_DHE_RSA_WITH_CAMELLIA_256_CBC_SHA256(),
        TlsCipherSuite::TLS_DHE_RSA_WITH_SEED_CBC_SHA(),
        TlsCipherSuite::TLS_ECDHE_ECDSA_WITH_3DES_EDE_CBC_SHA(),
        TlsCipherSuite::TLS_ECDHE_ECDSA_WITH_AES_128_CBC_SHA(),
        TlsCipherSuite::TLS_ECDHE_ECDSA_WITH_AES_128_CBC_SHA256(),
        TlsCipherSuite::TLS_ECDHE_ECDSA_WITH_AES_128_CCM(),
        TlsCipherSuite::TLS_ECDHE_ECDSA_WITH_AES_128_CCM_8(),
        TlsCipherSuite::TLS_ECDHE_ECDSA_WITH_AES_128_GCM_SHA256(),
        TlsCipherSuite::TLS_ECDHE_ECDSA_WITH_AES_256_CBC_SHA(),
        TlsCipherSuite::TLS_ECDHE_ECDSA_WITH_AES_256_CBC_SHA384(),
        TlsCipherSuite::TLS_ECDHE_ECDSA_WITH_AES_256_CCM(),
        TlsCipherSuite::TLS_ECDHE_ECDSA_WITH_AES_256_CCM_8(),
        TlsCipherSuite::TLS_ECDHE_ECDSA_WITH_AES_256_GCM_SHA384(),
        TlsCipherSuite::TLS_ECDHE_ECDSA_WITH_CAMELLIA_128_CBC_SHA256(),
        TlsCipherSuite::TLS_ECDHE_ECDSA_WITH_CAMELLIA_256_CBC_SHA384(),
        TlsCipherSuite::TLS_ECDHE_ECDSA_WITH_CHACHA20_POLY1305_SHA256(),
        TlsCipherSuite::TLS_AES_256_GCM_SHA384(),
        TlsCipherSuite::TLS_AES_128_GCM_SHA256(),
        TlsCipherSuite::OLD_TLS_ECDHE_ECDSA_WITH_CHACHA20_POLY1305_SHA256(),
        TlsCipherSuite::TLS_ECDHE_ECDSA_WITH_RC4_128_SHA(),
        TlsCipherSuite::TLS_ECDHE_RSA_WITH_3DES_EDE_CBC_SHA(),
        TlsCipherSuite::TLS_ECDHE_RSA_WITH_AES_128_CBC_SHA(),
        TlsCipherSuite::TLS_ECDHE_RSA_WITH_AES_128_CBC_SHA256(),
        TlsCipherSuite::TLS_ECDHE_RSA_WITH_AES_128_GCM_SHA256(),
        TlsCipherSuite::TLS_ECDHE_RSA_WITH_AES_256_CBC_SHA(),
        TlsCipherSuite::TLS_ECDHE_RSA_WITH_AES_256_CBC_SHA384(),
        TlsCipherSuite::TLS_ECDHE_RSA_WITH_AES_256_GCM_SHA384(),
        TlsCipherSuite::TLS_ECDHE_RSA_WITH_ARIA_128_GCM_SHA256(),
        TlsCipherSuite::TLS_ECDHE_RSA_WITH_ARIA_256_GCM_SHA384(),
        TlsCipherSuite::TLS_ECDHE_RSA_WITH_CAMELLIA_128_CBC_SHA256(),
        TlsCipherSuite::TLS_ECDHE_RSA_WITH_CAMELLIA_256_CBC_SHA384(),
        TlsCipherSuite::TLS_ECDHE_RSA_WITH_CHACHA20_POLY1305_SHA256(),
        TlsCipherSuite::TLS_AES_128_CCM_8_SHA256(),
        TlsCipherSuite::TLS_AES_128_CCM_SHA256(),
        TlsCipherSuite::TLS_CHACHA20_POLY1305_SHA256(),
        TlsCipherSuite::OLD_TLS_ECDHE_RSA_WITH_CHACHA20_POLY1305_SHA256(),
        TlsCipherSuite::TLS_ECDHE_RSA_WITH_RC4_128_SHA(),
        TlsCipherSuite::TLS_RSA_WITH_3DES_EDE_CBC_SHA(),
        TlsCipherSuite::TLS_RSA_WITH_AES_128_CBC_SHA(),
        TlsCipherSuite::TLS_RSA_WITH_AES_128_CBC_SHA256(),
        TlsCipherSuite::TLS_RSA_WITH_AES_128_CCM(),
        TlsCipherSuite::TLS_RSA_WITH_AES_128_CCM_8(),
        TlsCipherSuite::TLS_RSA_WITH_AES_128_GCM_SHA256(),
        TlsCipherSuite::TLS_RSA_WITH_AES_256_CBC_SHA(),
        TlsCipherSuite::TLS_RSA_WITH_AES_256_CBC_SHA256(),
        TlsCipherSuite::TLS_RSA_WITH_AES_256_CCM(),
        TlsCipherSuite::TLS_RSA_WITH_AES_256_CCM_8(),
        TlsCipherSuite::TLS_RSA_WITH_AES_256_GCM_SHA384(),
        TlsCipherSuite::TLS_RSA_WITH_CAMELLIA_128_CBC_SHA(),
        TlsCipherSuite::TLS_RSA_WITH_CAMELLIA_128_CBC_SHA256(),
        TlsCipherSuite::TLS_RSA_WITH_CAMELLIA_256_CBC_SHA(),
        TlsCipherSuite::TLS_RSA_WITH_CAMELLIA_256_CBC_SHA256(),
        TlsCipherSuite::TLS_RSA_WITH_IDEA_CBC_SHA(),
        TlsCipherSuite::TLS_RSA_WITH_RC4_128_MD5(),
        TlsCipherSuite::TLS_RSA_WITH_RC4_128_SHA(),
    ];
    assert(suite_values(r@) =~= all_cipher_suites());
    r
}

fn no_tls13_cipher_suites_list() -> (r: Vec<TlsCipherSuite>)
    ensures
        suite_values(r@) == no_tls13_cipher_suites(),
{
    let r = vec![
        TlsCipherSuite::TLS_DHE_RSA_WITH_3DES_EDE_CBC_SHA(),
        TlsCipherSuite::TLS_DHE_RSA_WITH_AES_128_CBC_SHA(),
        TlsCipherSuite::TLS_DHE_RSA_WITH_AES_128_CBC_SHA256(),
        TlsCipherSuite::TLS_DHE_RSA_WITH_AES_128_CCM(),
        TlsCipherSuite::TLS_DHE_RSA_WITH_AES_128_CCM_8(),
        TlsCipherSuite::TLS_DHE_RSA_WITH_AES_128_GCM_SHA256(),
        TlsCipherSuite::TLS_DHE_RSA_WITH_AES_256_CBC_SHA(),
        TlsCipherSuite::TLS_DHE_RSA_WITH_AES_256_CBC_SHA256(),
        TlsCipherSuite::TLS_DHE_RSA_WITH_AES_256_CCM(),
        TlsCipherSuite::TLS_DHE_RSA_WITH_AES_256_CCM_8(),
        TlsCipherSuite::TLS_DHE_RSA_WITH_AES_256_GCM_SHA384(),
        TlsCipherSuite::TLS_DHE_RSA_WITH_CAMELLIA_128_CBC_SHA(),
        TlsCipherSuite::TLS_DHE_RSA_WITH_CAMELLIA_128_CBC_SHA256(),
        TlsCipherSuite::TLS_DHE_RSA_WITH_CAMELLIA_256_CBC_SHA(),
        TlsCipherSuite::TLS_DHE_RSA_WITH_CAMELLIA_256_CBC_SHA256(),
        TlsCipherSuite::TLS_DHE_RSA_WITH_SEED_CBC_SHA(),
        TlsCipherSuite::TLS_ECDHE_ECDSA_WITH_3DES_EDE_CBC_SHA(),
        TlsCipherSuite::TLS_ECDHE_ECDSA_WITH_AES_128_CBC_SHA(),
        TlsCipherSuite::TLS_ECDHE_ECDSA_WITH_AES_128_CBC_SHA256(),
        TlsCipherSuite::TLS_ECDHE_ECDSA_WITH_AES_128_CCM(),
        TlsCipherSuite::TLS_ECDHE_ECDSA_WITH_AES_128_CCM_8(),
        TlsCipherSuite::TLS_ECDHE_ECDSA_WITH_AES_128_GCM_SHA256(),
        TlsCipherSuite::TLS_ECDHE_ECDSA_WITH_AES_256_CBC_SHA(),
        TlsCipherSuite::TLS_ECDHE_ECDSA_WITH_AES_256_CBC_SHA384(),
        TlsCipherSuite::TLS_ECDHE_ECDSA_WITH_AES_256_CCM(),
        TlsCipherSuite::TLS_ECDHE_ECDSA_WITH_AES_256_CCM_8(),
        TlsCipherSuite::TLS_ECDHE_ECDSA_WITH_AES_256_GCM_SHA384(),
        TlsCipherSuite::TLS_ECDHE_ECDSA_WITH_CAMELLIA_128_CBC_SHA256(),
        TlsCipherSuite::TLS_ECDHE_ECDSA_WITH_CAMELLIA_256_CBC_SHA384(),
        TlsCipherSuite::TLS_ECDHE_ECDSA_WITH_CHACHA20_POLY1305_SHA256(),
        TlsCipherSuite::OLD_TLS_ECDHE_ECDSA_WITH_CHACHA20_POLY1305_SHA256(),
        TlsCipherSuite::TLS_ECDHE_ECDSA_WITH_RC4_128_SHA(),
        TlsCipherSuite::TLS_ECDHE_RSA_WITH_3DES_EDE_CBC_SHA(),
        TlsCipherSuite::TLS_ECDHE_RSA_WITH_AES_128_CBC_SHA(),
        TlsCipherSuite::TLS_ECDHE_RSA_WITH_AES_128_CBC_SHA256(),
        TlsCipherSuite::TLS_ECDHE_RSA_WITH_AES_128_GCM_SHA256(),
        TlsCipherSuite::TLS_ECDHE_RSA_WITH_AES_256_CBC_SHA(),
        TlsCipherSuite::TLS_ECDHE_RSA_WITH_AES_256_CBC_SHA384(),
        TlsCipherSuite::TLS_ECDHE_RSA_WITH_AES_256_GCM_SHA384(),
        TlsCipherSuite::TLS_ECDHE_RSA_WITH_ARIA_128_GCM_SHA256(),
        TlsCipherSuite::TLS_ECDHE_RSA_WITH_ARIA_256_GCM_SHA384(),
        TlsCipherSuite::TLS_ECDHE_RSA_WITH_CAMELLIA_128_CBC_SHA256(),
        TlsCipherSuite::TLS_ECDHE_RSA_WITH_CAMELLIA_256_CBC_SHA384(),
        TlsCipherSuite::TLS_ECDHE_RSA_WITH_CHACHA20_POLY1305_SHA256(),
        TlsCipherSuite::OLD_TLS_ECDHE_RSA_WITH_CHACHA20_POLY1305_SHA256(),
        TlsCipherSuite::TLS_ECDHE_RSA_WITH_RC4_128_SHA(),
        TlsCipherSuite::TLS_RSA_WITH_3DES_EDE_CBC_SHA(),
        TlsCipherSuite::TLS_RSA_WITH_AES_128_CBC_SHA(),
        TlsCipherSuite::TLS_RSA_WITH_AES_128_CBC_SHA256(),
        TlsCipherSuite::TLS_RSA_WITH_AES_128_CCM(),
        TlsCipherSuite::TLS_RSA_WITH_AES_128_CCM_8(),
        TlsCipherSuite::TLS_RSA_WITH_AES_128_GCM_SHA256(),
        TlsCipherSuite::TLS_RSA_WITH_AES_256_CBC_SHA(),
        TlsCipherSuite::TLS_RSA_WITH_AES_256_CBC_SHA256(),
        TlsCipherSuite::TLS_RSA_WITH_AES_256_CCM(),
        TlsCipherSuite::TLS_RSA_WITH_AES_256_CCM_8(),
        TlsCipherSuite::TLS_RSA_WITH_AES_256_GCM_SHA384(),
        TlsCipherSuite::TLS_RSA_WITH_CAMELLIA_128_CBC_SHA(),
        TlsCipherSuite::TLS_RSA_WITH_CAMELLIA_128_CBC_SHA256(),
        TlsCipherSuite::TLS_RSA_WITH_CAMELLIA_256_CBC_SHA(),
        TlsCipherSuite::TLS_RSA_WITH_CAMELLIA_256_CBC_SHA256(),
        TlsCipherSuite::TLS_RSA_WITH_IDEA_CBC_SHA(),
        TlsCipherSuite::TLS_RSA_WITH_RC4_128_MD5(),
        TlsCipherSuite::TLS_RSA_WITH_RC4_128_SHA(),
    ];
    assert(suite_values(r@) =~= no_tls13_cipher_suites());
    r
}

fn signature_algorithms_list() -> (r: Vec<TlsSignatureAlgorithm>)
    ensures
        r@.map_values(|a: TlsSignatureAlgorithm| a@) == jarm_signature_algorithms(),
{
    let r = vec![
        TlsSignatureAlgorithm::ECDSA_SECP256R1_SHA256(),
        TlsSignatureAlgorithm::RSA_PSS_RSAE_SHA256(),
        TlsSignatureAlgorithm::RSA_PKCS1_SHA256(),
        TlsSignatureAlgorithm::ECDSA_SECP384R1_SHA384(),
        TlsSignatureAlgorithm::RSA_PSS_RSAE_SHA384(),
        TlsSignatureAlgorithm::RSA_PKCS1_SHA384(),
        TlsSignatureAlgorithm::RSA_PSS_RSAE_SHA512(),
        TlsSignatureAlgorithm::RSA_PKCS1_SHA512(),
        TlsSignatureAlgorithm::RSA_PKCS1_SHA1(),
    ];
    assert(r@.map_values(|a: TlsSignatureAlgorithm| a@) =~= jarm_signature_algorithms());
    r
}

fn supported_groups_list() -> (r: Vec<TlsSupportedGroup>)
    ensures
        r@.map_values(|g: TlsSupportedGroup| g@) == jarm_supported_groups(),
{
    let r = vec![
        TlsSupportedGroup::X25519(),
        TlsSupportedGroup::SECP256R1(),
        TlsSupportedGroup::SECP384R1(),
        TlsSupportedGroup::SECP521R1(),
    ];
    assert(r@.map_values(|g: TlsSupportedGroup| g@) =~= jarm_supported_groups());
    r
}

fn tls12_supported_versions_list() -> (r: Vec<TlsVersion>)
    ensures
        r@.map_values(|v: TlsVersion| v@) == tls12_supported_versions(),
{
    let r = vec![
        TlsVersion::TLS10(),
        TlsVersion::TLS11(),
        TlsVersion::TLS12(),
    ];
    assert(r@.map_values(|v: TlsVersion| v@) =~= tls12_supported_versions());
    r
}

fn tls13_supported_versions_list() -> (r: Vec<TlsVersion>)
    ensures
        r@.map_values(|v: TlsVersion| v@) == tls13_supported_versions(),
{
    let r = vec![
        TlsVersion::TLS10(),
        TlsVersion::TLS11(),
        TlsVersion::TLS12(),
        TlsVersion::TLS13(),
    ];
    assert(r@.map_values(|v: TlsVersion| v@) =~= tls13_supported_versions());
    r
}

fn all_alpns_list() -> (r: Vec<AlpnProtocol<'static>>)
    ensures
        r@.map_values(|p: AlpnProtocol<'static>| p@) == all_alpns(),
{
    let r = vec![
        AlpnProtocol::HTTP_09(),
        AlpnProtocol::HTTP_10(),
        AlpnProtocol::HTTP_11(),
        AlpnProtocol::SPDY_1(),
        AlpnProtocol::SPDY_2(),
        AlpnProtocol::SPDY_3(),
        AlpnProtocol::H2(),
        AlpnProtocol::H2C(),
        AlpnProtocol::HQ(),
    ];
    assert(r@.map_values(|p: AlpnProtocol<'static>| p@) =~= all_alpns());
    r
}

fn rare_alpns_list() -> (r: Vec<AlpnProtocol<'static>>)
    ensures
        r@.map_values(|p: AlpnProtocol<'static>| p@) == rare_alpns(),
{
    let r = vec![
        AlpnProtocol::HTTP_09(),
        AlpnProtocol::HTTP_10(),
        AlpnProtocol::SPDY_1(),
        AlpnProtocol::SPDY_2(),
        AlpnProtocol::SPDY_3(),
        AlpnProtocol::H2C(),
        AlpnProtocol::HQ(),
    ];
    assert(r@.map_values(|p: AlpnProtocol<'static>| p@) =~= rare_alpns());
    r
}

/// Which cipher list a probe draws from.
#[derive(Debug, Clone, Copy, PartialEq, Eq, Structural)]
pub enum CipherListKind {
    All,
    NoTls13,
}

/// The cipher suites of a list kind.
pub open spec fn cipher_list(kind: CipherListKind) -> Seq<u16> {
    match kind {
        CipherListKind::All => all_cipher_suites(),
        CipherListKind::NoTls13 => no_tls13_cipher_suites(),
    }
}

impl CipherListKind {
    /// Returns the cipher suites of this list.
    fn as_slice(self) -> (r: Vec<TlsCipherSuite>)
        ensures
            suite_values(r@) == cipher_list(self),
    {
        match self {
            Self::All => all_cipher_suites_list(),
            Self::NoTls13 => no_tls13_cipher_suites_list(),
        }
    }
}

/// Which `supported_versions` list a probe advertises.
#[derive(Debug, Clone, Copy, PartialEq, Eq, Structural)]
pub enum VersionSupport {
    Absent,
    Tls12,
    Tls13,
}

/// The versions a probe with version support `s` and protocol version `v`
/// lists; TLS 1.3 probes use the TLS 1.3 list even without a profile.
pub open spec fn version_list(s: VersionSupport, v: u16) -> Seq<u16> {
    match s {
        VersionSupport::Tls12 => tls12_supported_versions(),
        VersionSupport::Tls13 => tls13_supported_versions(),
        VersionSupport::Absent => if v == 0x0304 {
            tls13_supported_versions()
        } else {
            Seq::empty()
        },
    }
}

impl VersionSupport {
    /// Returns the version list to encode for the selected probe version.
    ///
    /// TLS 1.3 probes use the TLS 1.3 list even when the profile is [`Self::Absent`],
    /// as JARM defines its probes.
    fn supported_versions(self, protocol_version: TlsVersion) -> (r: Vec<TlsVersion>)
        ensures
            r@.map_values(|v: TlsVersion| v@) == version_list(self, protocol_version@),
    {
        match self {
            Self::Tls12 => tls12_supported_versions_list(),
            Self::Tls13 => tls13_supported_versions_list(),
            Self::Absent => if protocol_version.as_u16() == 0x0304 {
                tls13_supported_versions_list()
            } else {
                let r: Vec<TlsVersion> = Vec::new();
                assert(r@.map_values(|v: TlsVersion| v@) =~= Seq::<u16>::empty());
                r
            },
        }
    }
}

/// How a probe orders its cipher list.
#[derive(Debug, Clone, Copy, PartialEq, Eq, Structural)]
pub enum CipherListOrder {
    Forward,
    Reverse,
    /// Selects the upper half and orders it from the midpoint outward.
    TopHalf,
    /// Selects the lower half in canonical order.
    BottomHalf,
    /// Alternates around the midpoint, taking the upper item first.
    MiddleOut,
}

/// A cipher list in a probe's order. With `n` entries and `m = n / 2`:
/// forward keeps it, reverse reverses it, bottom half keeps the entries
/// after the middle one (from `m` for even `n`), top half takes the middle
/// entry of an odd list and then the entries before `m` in reverse, and
/// middle out starts at the middle and alternates outward, upper side first.
pub open spec fn reorder_ciphers<T>(order: CipherListOrder, c: Seq<T>) -> Seq<T> {
    let n = c.len() as int;
    let m = n / 2;
    match order {
        CipherListOrder::Forward => c,
        CipherListOrder::Reverse => c.reverse(),
        CipherListOrder::BottomHalf => if n % 2 == 1 {
            c.subrange(m + 1, n)
        } else {
            c.subrange(m, n)
        },
        CipherListOrder::TopHalf => if n % 2 == 1 {
            seq![c[m]] + c.subrange(0, m).reverse()
        } else {
            c.subrange(0, m).reverse()
        },
        CipherListOrder::MiddleOut => if n % 2 == 1 {
            Seq::new(
                n as nat,
                |i: int|
                    if i == 0 {
                        c[m]
                    } else if i % 2 == 1 {
                        c[m + (i + 1) / 2]
                    } else {
                        c[m - i / 2]
                    },
            )
        } else {
            Seq::new(n as nat, |i: int| if i % 2 == 0 { c[m + i / 2] } else { c[m - (i + 1) / 2] })
        },
    }
}

/// Where entry `i` of a middle-out list of `n` entries comes from: the middle
/// entry first, then alternately one above and one below, moving outward.
pub open spec fn middle_out_index(n: int, i: int) -> int {
    let m = n / 2;
    if n % 2 == 1 {
        if i == 0 {
            m
        } else if i % 2 == 1 {
            m + (i + 1) / 2
        } else {
            m - i / 2
        }
    } else {
        if i % 2 == 0 {
            m + i / 2
        } else {
            m - (i + 1) / 2
        }
    }
}

/// Where entry `j` of a list of `n` entries goes in its middle-out order.
pub open spec fn middle_out_position(n: int, j: int) -> int {
    let m = n / 2;
    if n % 2 == 1 {
        if j == m {
            0
        } else if j > m {
            2 * (j - m) - 1
        } else {
            2 * (m - j)
        }
    } else {
        if j >= m {
            2 * (j - m)
        } else {
            2 * (m - j) - 1
        }
    }
}

/// Forward order keeps a cipher list as it is.
pub proof fn law_reorder_forward_keeps<T>(c: Seq<T>)
    ensures
        reorder_ciphers(CipherListOrder::Forward, c) == c,
{
}

/// Reversing a cipher list twice gives it back.
pub proof fn law_reorder_reverse_twice<T>(c: Seq<T>)
    ensures
        reorder_ciphers(CipherListOrder::Reverse, reorder_ciphers(CipherListOrder::Reverse, c))
            == c,
{
    assert(c.reverse().reverse() =~= c);
}

/// The top half, turned back around, followed by the bottom half is the
/// whole list: the halves split it, the middle entry of an odd list going to
/// the top half.
pub proof fn law_reorder_halves_partition<T>(c: Seq<T>)
    ensures
        reorder_ciphers(CipherListOrder::TopHalf, c).reverse() + reorder_ciphers(
            CipherListOrder::BottomHalf,
            c,
        ) == c,
{
    let n = c.len() as int;
    let m = n / 2;
    if n % 2 == 1 {
        assert((seq![c[m]] + c.subrange(0, m).reverse()).reverse() =~= c.subrange(0, m + 1));
        assert(c.subrange(0, m + 1) + c.subrange(m + 1, n) =~= c);
    } else {
        assert(c.subrange(0, m).reverse().reverse() =~= c.subrange(0, m));
        assert(c.subrange(0, m) + c.subrange(m, n) =~= c);
    }
}

/// Middle-out order is a permutation of the list: entry `i` is entry
/// `middle_out_index(n, i)` of the list, these indexes are in range and
/// each entry of the list lands at `middle_out_position(n, j)`; a non-empty
/// list starts with its middle entry.
pub proof fn law_reorder_middle_out_permutation<T>(c: Seq<T>)
    ensures
        ({
            let n = c.len() as int;
            let out = reorder_ciphers(CipherListOrder::MiddleOut, c);
            &&& out.len() == n
            &&& forall|i: int|
                0 <= i < n ==> 0 <= #[trigger] middle_out_index(n, i) < n && out[i] == c[middle_out_index(n, i)]
            &&& forall|j: int|
                0 <= j < n ==> 0 <= #[trigger] middle_out_position(n, j) < n && middle_out_index(
                    n,
                    middle_out_position(n, j),
                ) == j
            &&& n > 0 ==> out[0] == c[n / 2]
        }),
{
}

/// `s` reversed, built by walking it backwards.
fn reversed<T: Copy>(s: &[T]) -> (r: Vec<T>)
    ensures
        r@ == s@.reverse(),
{
    let mut r: Vec<T> = Vec::new();
    let mut i: usize = s.len();
    while i > 0
        invariant
            i <= s@.len(),
            r@.len() == s@.len() - i,
            forall|k: int| 0 <= k < r@.len() ==> r@[k] == s@[s@.len() - 1 - k],
        decreases i,
    {
        i = i - 1;
        r.push(s[i]);
    }
    assert(r@ =~= s@.reverse());
    r
}

impl CipherListOrder {
    fn reorder(self, ciphers: &[TlsCipherSuite]) -> (r: Vec<TlsCipherSuite>)
        ensures
            r@ == reorder_ciphers(self, ciphers@),
    {
        match self {
            Self::Forward => vstd::slice::slice_to_vec(ciphers),
            Self::Reverse => reversed(ciphers),
            Self::BottomHalf => {
                let midpoint = ciphers.len() / 2;
                if ciphers.len() % 2 == 1 {
                    vstd::slice::slice_to_vec(&ciphers[midpoint + 1..ciphers.len()])
                } else {
                    vstd::slice::slice_to_vec(&ciphers[midpoint..ciphers.len()])
                }
            },
            Self::TopHalf => {
                let midpoint = ciphers.len() / 2;
                let mut reordered: Vec<TlsCipherSuite> = Vec::new();
                if ciphers.len() % 2 == 1 {
                    reordered.push(ciphers[midpoint]);
                }
                let lower = reversed(&ciphers[0..midpoint]);
                let ghost first = reordered@;
                reordered.extend_from_slice(lower.as_slice());
                assert(reordered@ =~= first + lower@);
                reordered
            },
            Self::MiddleOut => {
                let cipher_count = ciphers.len();
                if cipher_count == 0 {
                    let r: Vec<TlsCipherSuite> = Vec::new();
                    assert(r@ =~= reorder_ciphers(self, ciphers@));
                    return r;
                }
                let midpoint = cipher_count / 2;
                let ghost target = reorder_ciphers(self, ciphers@);
                let mut reordered: Vec<TlsCipherSuite> = Vec::new();
                if cipher_count % 2 == 1 {
                    reordered.push(ciphers[midpoint]);
                    let mut offset: usize = 1;
                    while offset <= midpoint
                        invariant
                            cipher_count == ciphers@.len(),
                            cipher_count % 2 == 1,
                            midpoint == cipher_count / 2,
                            1 <= offset <= midpoint + 1,
                            target == reorder_ciphers(self, ciphers@),
                            self == CipherListOrder::MiddleOut,
                            reordered@ =~= target.take(2 * offset - 1),
                        decreases midpoint + 1 - offset,
                    {
                        reordered.push(ciphers[midpoint + offset]);
                        reordered.push(ciphers[midpoint - offset]);
                        assert(target[2 * offset - 1] == ciphers@[midpoint + offset]);
                        assert(target[2 * offset as int] == ciphers@[midpoint - offset]);
                        offset = offset + 1;
                    }
                } else {
                    let mut offset: usize = 1;
                    while offset <= midpoint
                        invariant
                            cipher_count == ciphers@.len(),
                            cipher_count % 2 == 0,
                            midpoint == cipher_count / 2,
                            1 <= offset <= midpoint + 1,
                            target == reorder_ciphers(self, ciphers@),
                            self == CipherListOrder::MiddleOut,
                            reordered@ =~= target.take(2 * offset - 2),
                        decreases midpoint + 1 - offset,
                    {
                        reordered.push(ciphers[midpoint - 1 + offset]);
                        reordered.push(ciphers[midpoint - offset]);
                        assert(target[2 * offset - 2] == ciphers@[midpoint - 1 + offset]);
                        assert(target[2 * offset - 1] == ciphers@[midpoint - offset]);
                        offset = offset + 1;
                    }
                }
                assert(target.take(target.len() as int) =~= target);
                reordered
            },
        }
    }
}

/// Ordering applied to order-sensitive values within JARM extensions.
///
/// This controls ALPN protocols and supported versions; it does not reorder the
/// extension blocks themselves.
#[derive(Debug, Clone, Copy, PartialEq, Eq, Structural)]
pub enum ExtensionOrder {
    Forward,
    Reverse,
}

/// Values in forward or reverse order.
pub open spec fn reorder_values<T>(order: ExtensionOrder, s: Seq<T>) -> Seq<T> {
    match order {
        ExtensionOrder::Forward => s,
        ExtensionOrder::Reverse => s.reverse(),
    }
}

impl ExtensionOrder {
    fn reorder<T: Copy>(self, values: &[T]) -> (r: Vec<T>)
        ensures
            r@ == reorder_values(self, values@),
    {
        match self {
            Self::Forward => vstd::slice::slice_to_vec(values),
            Self::Reverse => reversed(values),
        }
    }
}

/// Which ALPN list a probe advertises.
#[derive(Debug, Clone, Copy, PartialEq, Eq, Structural)]
pub enum AlpnProfile {
    /// Advertises the complete canonical JARM ALPN list.
    All,
    /// Advertises the reduced list that omits HTTP/1.1 and HTTP/2.
    Rare,
}

/// The ALPN protocols of a profile.
pub open spec fn alpn_list(p: AlpnProfile) -> Seq<Seq<u8>> {
    match p {
        AlpnProfile::All => all_alpns(),
        AlpnProfile::Rare => rare_alpns(),
    }
}

impl AlpnProfile {
    fn as_slice(self) -> (r: Vec<AlpnProtocol<'static>>)
        ensures
            r@.map_values(|p: AlpnProtocol<'static>| p@) == alpn_list(self),
    {
        match self {
            Self::All => all_alpns_list(),
            Self::Rare => rare_alpns_list(),
        }
    }
}

/// What a JARM probe is made from.
pub struct ProbeModel {
    pub host: Seq<u8>,
    pub protocol_version: u16,
    pub cipher_list_kind: CipherListKind,
    pub cipher_list_order: CipherListOrder,
    pub extension_order: ExtensionOrder,
    pub alpn_profile: AlpnProfile,
    pub version_support: VersionSupport,
    pub grease: bool,
}

/// The random values one probe carries.
pub struct EntropyModel {
    pub random: Seq<u8>,
    pub session_id: Seq<u8>,
    pub key_share: Seq<u8>,
    pub grease_suite: u16,
    pub grease_extension: u16,
    pub grease_key_share: u16,
    pub grease_version: u16,
}

/// The random byte strings of a probe have the sizes the probe needs.
pub open spec fn entropy_sized(e: EntropyModel) -> bool {
    &&& e.random.len() == 32
    &&& e.session_id.len() == 32
    &&& e.key_share.len() == 32
}

/// The random values of a probe have the sizes and forms the probe needs.
pub open spec fn entropy_valid(e: EntropyModel) -> bool {
    &&& entropy_sized(e)
    &&& is_grease_value(e.grease_suite)
    &&& is_grease_value(e.grease_extension)
    &&& is_grease_value(e.grease_key_share)
    &&& is_grease_value(e.grease_version)
}

/// The random values that go into one JARM probe: the `ClientHello` random
/// and session ID, the X25519 key share, and the GREASE values of a GREASE
/// probe's cipher list, extension, key share and version list.
pub struct JarmProbeEntropy {
    pub random: [u8; 32],
    pub session_id: [u8; 32],
    pub key_share: [u8; 32],
    pub grease_suite: Grease,
    pub grease_extension: Grease,
    pub grease_key_share: Grease,
    pub grease_version: Grease,
}

impl View for JarmProbeEntropy {
    type V = EntropyModel;

    open spec fn view(&self) -> EntropyModel {
        EntropyModel {
            random: self.random@,
            session_id: self.session_id@,
            key_share: self.key_share@,
            grease_suite: self.grease_suite@,
            grease_extension: self.grease_extension@,
            grease_key_share: self.grease_key_share@,
            grease_version: self.grease_version@,
        }
    }
}

impl JarmProbeEntropy {
    /// Draws the random values of one probe from the operating system.
    pub fn random() -> (r: Self)
        ensures
            entropy_valid(r@),
    {
        Self {
            random: random_32_bytes(),
            session_id: random_32_bytes(),
            key_share: random_32_bytes(),
            grease_suite: Grease::random(),
            grease_extension: Grease::random(),
            grease_key_share: Grease::random(),
            grease_version: Grease::random(),
        }
    }
}

/// An extension with the given type and payload.
pub open spec fn ext(t: u16, data: Seq<u8>) -> ExtensionModel {
    ExtensionModel { ext_type: t, data }
}

/// The `server_name` payload naming `host`.
pub open spec fn server_name_data(host: Seq<u8>) -> Seq<u8> {
    be16(host.len() + 3int) + seq![0u8] + be16(host.len() as int) + host
}

/// ALPN protocol names, each preceded by its one-byte length.
pub open spec fn alpn_entries(protocols: Seq<Seq<u8>>) -> Seq<u8>
    decreases protocols.len(),
{
    if protocols.len() == 0 {
        Seq::empty()
    } else {
        alpn_entries(protocols.drop_last()) + seq![protocols.last().len() as u8]
            + protocols.last()
    }
}

/// The ALPN payload of a probe.
pub open spec fn alpn_data(d: ProbeModel) -> Seq<u8> {
    let entries = alpn_entries(reorder_values(d.extension_order, alpn_list(d.alpn_profile)));
    be16(entries.len() as int) + entries
}

/// The `supported_groups` payload every probe carries.
pub open spec fn supported_groups_data() -> Seq<u8> {
    be16(8) + be16_list(jarm_supported_groups())
}

/// The `signature_algorithms` payload every probe carries.
pub open spec fn signature_algorithms_data() -> Seq<u8> {
    be16(18) + be16_list(jarm_signature_algorithms())
}

/// The `key_share` payload of a probe: an optional one-byte GREASE share,
/// then a 32-byte X25519 share.
pub open spec fn key_share_data(d: ProbeModel, e: EntropyModel) -> Seq<u8> {
    let shares = (if d.grease {
        be16(e.grease_key_share as int) + be16(1) + seq![0u8]
    } else {
        Seq::empty()
    }) + be16(0x001d) + be16(32) + e.key_share;
    be16(shares.len() as int) + shares
}

/// The `supported_versions` payload of a probe.
pub open spec fn supported_versions_data(d: ProbeModel, e: EntropyModel) -> Seq<u8> {
    let versions = (if d.grease {
        be16(e.grease_version as int)
    } else {
        Seq::empty()
    }) + be16_list(reorder_values(d.extension_order, version_list(d.version_support, d.protocol_version)));
    seq![versions.len() as u8] + versions
}

/// Whether a probe carries `supported_versions`.
pub open spec fn sends_supported_versions(d: ProbeModel) -> bool {
    d.protocol_version == 0x0304 || d.version_support != VersionSupport::Absent
}

/// The extensions of a probe, in the order it sends them.
pub open spec fn probe_extensions(d: ProbeModel, e: EntropyModel) -> Seq<ExtensionModel> {
    (if d.grease {
        seq![ext(e.grease_extension, Seq::empty())]
    } else {
        Seq::empty()
    }) + seq![
        ext(0x0000, server_name_data(d.host)),
        ext(0x0017, Seq::empty()),
        ext(0x0001, seq![1u8]),
        ext(0xff01, seq![0u8]),
        ext(0x000a, supported_groups_data()),
        ext(0x000b, seq![1u8, 0u8]),
        ext(0x0023, Seq::empty()),
        ext(0x0010, alpn_data(d)),
        ext(0x000d, signature_algorithms_data()),
        ext(0x0033, key_share_data(d, e)),
        ext(0x002d, seq![1u8, 1u8]),
    ] + (if sends_supported_versions(d) {
        seq![ext(0x002b, supported_versions_data(d, e))]
    } else {
        Seq::empty()
    })
}

/// The cipher suites a probe offers: a GREASE value first for GREASE probes,
/// then its list in its order.
pub open spec fn probe_cipher_suites(d: ProbeModel, e: EntropyModel) -> Seq<u16> {
    (if d.grease {
        seq![e.grease_suite]
    } else {
        Seq::empty()
    }) + reorder_ciphers(d.cipher_list_order, cipher_list(d.cipher_list_kind))
}

/// The record version a probe is sent with: TLS 1.0 for TLS 1.3 probes,
/// else the probe's own version.
pub open spec fn probe_record_version(d: ProbeModel) -> u16 {
    if d.protocol_version == 0x0304 {
        0x0301
    } else {
        d.protocol_version
    }
}

/// The `ClientHello` a probe sends.
pub open spec fn probe_client_hello(d: ProbeModel, e: EntropyModel) -> ClientHelloModel {
    new_client_hello(
        d.protocol_version,
        probe_cipher_suites(d, e),
        probe_extensions(d, e),
        e.random,
        e.session_id,
    )
}

/// The bytes of a probe: a handshake record holding a `ClientHello`
/// handshake message; or the error of the first field that does not fit.
#[verifier::opaque]
pub open spec fn probe_bytes(d: ProbeModel, e: EntropyModel) -> Result<Seq<u8>, Error> {
    if server_name_data(d.host).len() > 0xffff {
        Err(overflow(0xffff, server_name_data(d.host).len() as int))
    } else {
        match new_client_hello_error(probe_cipher_suites(d, e)) {
            Some(err) => Err(err),
            None => {
                let hello = probe_client_hello(d, e);
                let ext_len = encode_extensions(hello.extensions).len();
                if ext_len > 0xffff {
                    Err(overflow(0xffff, ext_len as int))
                } else {
                    let body = encode_client_hello(hello);
                    if body.len() > 0xff_ffff {
                        Err(overflow(0xff_ffff, body.len() as int))
                    } else {
                        let handshake = encode_handshake(HandshakeModel { msg_type: 1, body });
                        if handshake.len() > 16384 {
                            Err(overflow(16384, handshake.len() as int))
                        } else {
                            Ok(
                                encode_record(
                                    RecordModel {
                                        content_type: 22,
                                        legacy_version: probe_record_version(d),
                                        payload: handshake,
                                    },
                                ),
                            )
                        }
                    }
                }
            },
        }
    }
}

struct JarmProbeDefinition {
    host: Vec<u8>,
    protocol_version: TlsVersion,
    cipher_list_kind: CipherListKind,
    cipher_list_order: CipherListOrder,
    extension_order: ExtensionOrder,
    alpn_profile: AlpnProfile,
    version_support: VersionSupport,
    grease: bool,
}

impl View for JarmProbeDefinition {
    type V = ProbeModel;

    closed spec fn view(&self) -> ProbeModel {
        ProbeModel {
            host: self.host@,
            protocol_version: self.protocol_version@,
            cipher_list_kind: self.cipher_list_kind,
            cipher_list_order: self.cipher_list_order,
            extension_order: self.extension_order,
            alpn_profile: self.alpn_profile,
            version_support: self.version_support,
            grease: self.grease,
        }
    }
}

impl JarmProbeDefinition {
    fn client_hello_probe(&self, entropy: &JarmProbeEntropy) -> (r: Result<Vec<u8>, Error>)
        requires
            self@.host.len() + 5 <= usize::MAX,
        ensures
            match r {
                Ok(b) => probe_bytes(self@, entropy@) == Ok::<Seq<u8>, Error>(b@),
                Err(e) => probe_bytes(self@, entropy@) == Err::<Seq<u8>, Error>(e),
            },
    {
        reveal(probe_bytes);
        let mut cipher_suites: Vec<TlsCipherSuite> = Vec::new();
        if self.grease {
            cipher_suites.push(TlsCipherSuite(entropy.grease_suite.as_u16()));
        }
        let ghost first = cipher_suites@;
        let listed = self.cipher_list_kind.as_slice();
        let ordered = self.cipher_list_order.reorder(listed.as_slice());
        cipher_suites.extend_from_slice(ordered.as_slice());
        proof {
            assert(cipher_suites@ =~= first + ordered@);
            lemma_reorder_suite_values(self.cipher_list_order, listed@);
            assert(suite_values(cipher_suites@) =~= probe_cipher_suites(self@, entropy@));
        }
        let record_version = if self.protocol_version.as_u16() == 0x0304 {
            TlsVersion::TLS10()
        } else {
            self.protocol_version
        };
        let extensions = self.extensions(entropy)?;
        let client_hello = TlsClientHello::with_random(
            self.protocol_version,
            cipher_suites,
            extensions,
            entropy.random,
            entropy.session_id,
        )?;
        assert(client_hello@ == probe_client_hello(self@, entropy@));
        let client_hello_body = client_hello.try_to_bytes()?;
        let handshake = TlsHandshake::new(
            TlsHandshakeType::CLIENT_HELLO(),
            client_hello_body.as_slice(),
        );
        let handshake_bytes = handshake.try_to_bytes()?;
        TlsRecord::new(
            TlsContentType::HANDSHAKE(),
            record_version,
            handshake_bytes.as_slice(),
        ).try_to_bytes()
    }

    fn extensions(&self, entropy: &JarmProbeEntropy) -> (r: Result<Vec<TlsExtension>, Error>)
        requires
            self@.host.len() + 5 <= usize::MAX,
        ensures
            match r {
                Ok(v) => {
                    &&& server_name_data(self@.host).len() <= 0xffff
                    &&& extension_models(v@) == probe_extensions(self@, entropy@)
                },
                Err(e) => {
                    &&& server_name_data(self@.host).len() > 0xffff
                    &&& e == overflow(0xffff, server_name_data(self@.host).len() as int)
                },
            },
    {
        let mut extensions: Vec<TlsExtension> = Vec::new();
        if self.grease {
            extensions.push(self.grease_extension(entropy)?);
        }
        let ghost first = extension_models(extensions@);
        extensions.push(self.server_name_extension()?);
        extensions.push(self.extended_master_secret_extension()?);
        extensions.push(self.max_fragment_length_extension()?);
        extensions.push(self.renegotiation_info_extension()?);
        extensions.push(self.supported_groups_extension()?);
        extensions.push(self.ec_point_formats_extension()?);
        extensions.push(self.session_ticket_extension()?);
        extensions.push(self.alpn_extension()?);
        extensions.push(self.signature_algorithms_extension()?);
        extensions.push(self.key_share_extension(entropy)?);
        extensions.push(self.psk_key_exchange_modes_extension()?);
        let ghost middle = extension_models(extensions@);
        if self.protocol_version.as_u16() == 0x0304 || self.version_support != VersionSupport::Absent {
            extensions.push(self.supported_versions_extension(entropy)?);
        }
        assert(extension_models(extensions@) =~= probe_extensions(self@, entropy@));
        Ok(extensions)
    }

    fn grease_extension(&self, entropy: &JarmProbeEntropy) -> (r: Result<TlsExtension, Error>)
        ensures
            r matches Ok(e) && e@ == ext(entropy@.grease_extension, Seq::empty()),
    {
        let r = TlsExtension::new(TlsExtensionType(entropy.grease_extension.as_u16()), Vec::new());
        assert(r matches Ok(e) && e@.data =~= Seq::<u8>::empty());
        r
    }

    fn server_name_extension(&self) -> (r: Result<TlsExtension, Error>)
        requires
            self@.host.len() + 5 <= usize::MAX,
        ensures
            match r {
                Ok(e) => {
                    &&& server_name_data(self@.host).len() <= 0xffff
                    &&& e@ == ext(0x0000, server_name_data(self@.host))
                },
                Err(e) => {
                    &&& server_name_data(self@.host).len() > 0xffff
                    &&& e == overflow(0xffff, server_name_data(self@.host).len() as int)
                },
            },
    {
        let host_bytes = self.host.as_slice();
        let mut extension_data: Vec<u8> = Vec::new();
        if host_bytes.len() > 0xffff - 5 {
            return Err(Error::LengthOverflow { max: 0xffff, actual: host_bytes.len() + 5 });
        }
        extension_data.extend_from_slice(&u16_to_be((host_bytes.len() + 3) as u16));
        extension_data.push(0x00);
        extension_data.extend_from_slice(&u16_to_be(host_bytes.len() as u16));
        extension_data.extend_from_slice(host_bytes);
        assert(extension_data@ =~= server_name_data(self@.host));
        TlsExtension::new(TlsExtensionType::SERVER_NAME(), extension_data)
    }

    fn extended_master_secret_extension(&self) -> (r: Result<TlsExtension, Error>)
        ensures
            r matches Ok(e) && e@ == ext(0x0017, Seq::empty()),
    {
        let r = TlsExtension::new(TlsExtensionType::EXTENDED_MASTER_SECRET(), Vec::new());
        assert(r matches Ok(e) && e@.data =~= Seq::<u8>::empty());
        r
    }

    fn max_fragment_length_extension(&self) -> (r: Result<TlsExtension, Error>)
        ensures
            r matches Ok(e) && e@ == ext(0x0001, seq![1u8]),
    {
        let r = TlsExtension::new(TlsExtensionType::MAX_FRAGMENT_LENGTH(), vec![0x01u8]);
        assert(r matches Ok(e) && e@.data =~= seq![1u8]);
        r
    }

    fn renegotiation_info_extension(&self) -> (r: Result<TlsExtension, Error>)
        ensures
            r matches Ok(e) && e@ == ext(0xff01, seq![0u8]),
    {
        let r = TlsExtension::new(TlsExtensionType::RENEGOTIATION_INFO(), vec![0x00u8]);
        assert(r matches Ok(e) && e@.data =~= seq![0u8]);
        r
    }

    fn supported_groups_extension(&self) -> (r: Result<TlsExtension, Error>)
        ensures
            r matches Ok(e) && e@ == ext(0x000a, supported_groups_data()),
    {
        broadcast use vstd::layout::group_layout_axioms;

        let groups = supported_groups_list();
        let mut data: Vec<u8> = Vec::new();
        data.extend_from_slice(&u16_to_be((groups.len() * core::mem::size_of::<u16>()) as u16));
        let ghost prefix = data@;
        let mut i: usize = 0;
        while i < groups.len()
            invariant
                i <= groups@.len(),
                groups@.map_values(|g: TlsSupportedGroup| g@) == jarm_supported_groups(),
                data@ =~= prefix + be16_list(jarm_supported_groups().take(i as int)),
            decreases groups@.len() - i,
        {
            data.extend_from_slice(&groups[i].to_be_bytes());
            proof {
                crate::wire::lemma_be16_list_push(
                    jarm_supported_groups().take(i as int),
                    jarm_supported_groups()[i as int],
                );
                assert(jarm_supported_groups().take(i + 1) =~= jarm_supported_groups().take(
                    i as int,
                ).push(jarm_supported_groups()[i as int]));
            }
            i = i + 1;
        }
        assert(jarm_supported_groups().take(4) =~= jarm_supported_groups());
        let r = TlsExtension::new(TlsExtensionType::SUPPORTED_GROUPS(), data);
        assert(r matches Ok(e) && e@.data =~= supported_groups_data());
        r
    }

    fn ec_point_formats_extension(&self) -> (r: Result<TlsExtension, Error>)
        ensures
            r matches Ok(e) && e@ == ext(0x000b, seq![1u8, 0u8]),
    {
        let r = TlsExtension::new(TlsExtensionType::EC_POINT_FORMATS(), vec![0x01u8, 0x00u8]);
        assert(r matches Ok(e) && e@.data =~= seq![1u8, 0u8]);
        r
    }

    fn session_ticket_extension(&self) -> (r: Result<TlsExtension, Error>)
        ensures
            r matches Ok(e) && e@ == ext(0x0023, Seq::empty()),
    {
        let r = TlsExtension::new(TlsExtensionType::SESSION_TICKET(), Vec::new());
        assert(r matches Ok(e) && e@.data =~= Seq::<u8>::empty());
        r
    }

    fn alpn_extension(&self) -> (r: Result<TlsExtension, Error>)
        ensures
            r matches Ok(e) && e@ == ext(0x0010, alpn_data(self@)),
    {
        let alpns = self.alpn_profile.as_slice();
        let ordered = self.extension_order.reorder(alpns.as_slice());
        let ghost names = reorder_values(self@.extension_order, alpn_list(self@.alpn_profile));
        proof {
            assert(ordered@.map_values(|p: AlpnProtocol<'static>| p@) =~= names);
            lemma_alpn_names_short(self@.alpn_profile);
            lemma_reordered_names_short(self@.extension_order, alpn_list(self@.alpn_profile));
            lemma_alpn_entries_len(names);
        }
        let mut protocols: Vec<u8> = Vec::new();
        let mut i: usize = 0;
        while i < ordered.len()
            invariant
                i <= ordered@.len(),
                ordered@.map_values(|p: AlpnProtocol<'static>| p@) == names,
                protocols@ == alpn_entries(names.take(i as int)),
            decreases ordered@.len() - i,
        {
            let protocol = ordered[i].as_bytes();
            protocols.push(protocol.len() as u8);
            protocols.extend_from_slice(protocol);
            proof {
                assert(names.take(i + 1).drop_last() =~= names.take(i as int));
                assert(names[i as int] == ordered@[i as int]@);
                assert(protocols@ =~= alpn_entries(names.take(i + 1)));
            }
            i = i + 1;
        }
        assert(names.take(i as int) =~= names);
        let mut data: Vec<u8> = Vec::new();
        data.extend_from_slice(&u16_to_be(protocols.len() as u16));
        data.extend_from_slice(protocols.as_slice());
        let r = TlsExtension::new(TlsExtensionType::APPLICATION_LAYER_PROTOCOL_NEGOTIATION(), data);
        assert(r matches Ok(e) && e@.data =~= alpn_data(self@));
        r
    }

    fn signature_algorithms_extension(&self) -> (r: Result<TlsExtension, Error>)
        ensures
            r matches Ok(e) && e@ == ext(0x000d, signature_algorithms_data()),
    {
        let algorithms_list = signature_algorithms_list();
        let mut algorithms: Vec<u8> = Vec::new();
        let mut i: usize = 0;
        while i < algorithms_list.len()
            invariant
                i <= algorithms_list@.len(),
                algorithms_list@.map_values(|a: TlsSignatureAlgorithm| a@)
                    == jarm_signature_algorithms(),
                algorithms@ =~= be16_list(jarm_signature_algorithms().take(i as int)),
            decreases algorithms_list@.len() - i,
        {
            algorithms.extend_from_slice(&algorithms_list[i].to_be_bytes());
            proof {
                crate::wire::lemma_be16_list_push(
                    jarm_signature_algorithms().take(i as int),
                    jarm_signature_algorithms()[i as int],
                );
                assert(jarm_signature_algorithms().take(i + 1) =~= jarm_signature_algorithms().take(
                    i as int,
                ).push(jarm_signature_algorithms()[i as int]));
            }
            i = i + 1;
        }
        assert(jarm_signature_algorithms().take(9) =~= jarm_signature_algorithms());
        let mut data: Vec<u8> = Vec::new();
        data.extend_from_slice(&u16_to_be(algorithms.len() as u16));
        data.extend_from_slice(algorithms.as_slice());
        let r = TlsExtension::new(TlsExtensionType::SIGNATURE_ALGORITHMS(), data);
        assert(r matches Ok(e) && e@.data =~= signature_algorithms_data());
        r
    }

    fn key_share_extension(&self, entropy: &JarmProbeEntropy) -> (r: Result<TlsExtension, Error>)
        ensures
            r matches Ok(e) && e@ == ext(0x0033, key_share_data(self@, entropy@)),
    {
        let mut key_shares: Vec<u8> = Vec::new();
        if self.grease {
            key_shares.extend_from_slice(&entropy.grease_key_share.to_be_bytes());
            key_shares.extend_from_slice(&u16_to_be(1u16));
            key_shares.push(0x00);
        }
        key_shares.extend_from_slice(&TlsSupportedGroup::X25519().to_be_bytes());
        key_shares.extend_from_slice(&u16_to_be(32u16));
        key_shares.extend_from_slice(&entropy.key_share);
        let mut data: Vec<u8> = Vec::new();
        data.extend_from_slice(&u16_to_be(key_shares.len() as u16));
        data.extend_from_slice(key_shares.as_slice());
        let r = TlsExtension::new(TlsExtensionType::KEY_SHARE(), data);
        assert(r matches Ok(e) && e@.data =~= key_share_data(self@, entropy@));
        r
    }

    fn psk_key_exchange_modes_extension(&self) -> (r: Result<TlsExtension, Error>)
        ensures
            r matches Ok(e) && e@ == ext(0x002d, seq![1u8, 1u8]),
    {
        let mut data: Vec<u8> = Vec::with_capacity(2);
        data.push(1u8);
        data.push(TlsPskKeyExchangeMode::PSK_DHE_KE().as_u8());
        let r = TlsExtension::new(TlsExtensionType::PSK_KEY_EXCHANGE_MODES(), data);
        assert(r matches Ok(e) && e@.data =~= seq![1u8, 1u8]);
        r
    }

    fn supported_versions_extension(&self, entropy: &JarmProbeEntropy) -> (r: Result<
        TlsExtension,
        Error,
    >)
        ensures
            r matches Ok(e) && e@ == ext(0x002b, supported_versions_data(self@, entropy@)),
    {
        let mut versions: Vec<u8> = Vec::new();
        if self.grease {
            versions.extend_from_slice(&entropy.grease_version.to_be_bytes());
        }
        let ghost prefix = versions@;
        let listed = self.version_support.supported_versions(self.protocol_version);
        let ordered = self.extension_order.reorder(listed.as_slice());
        let ghost values = reorder_values(
            self@.extension_order,
            version_list(self@.version_support, self@.protocol_version),
        );
        assert(ordered@.map_values(|v: TlsVersion| v@) =~= values);
        let mut i: usize = 0;
        while i < ordered.len()
            invariant
                i <= ordered@.len(),
                ordered@.map_values(|v: TlsVersion| v@) == values,
                versions@ =~= prefix + be16_list(values.take(i as int)),
            decreases ordered@.len() - i,
        {
            versions.extend_from_slice(&ordered[i].to_be_bytes());
            proof {
                crate::wire::lemma_be16_list_push(values.take(i as int), values[i as int]);
                assert(values.take(i + 1) =~= values.take(i as int).push(values[i as int]));
            }
            i = i + 1;
        }
        assert(values.take(i as int) =~= values);
        let mut data: Vec<u8> = Vec::new();
        data.push(versions.len() as u8);
        data.extend_from_slice(versions.as_slice());
        let r = TlsExtension::new(TlsExtensionType::SUPPORTED_VERSIONS(), data);
        assert(r matches Ok(e) && e@.data =~= supported_versions_data(self@, entropy@));
        r
    }
}

/// Reordering a list of cipher suites and taking their values commute.
proof fn lemma_reorder_suite_values(order: CipherListOrder, c: Seq<TlsCipherSuite>)
    ensures
        suite_values(reorder_ciphers(order, c)) == reorder_ciphers(order, suite_values(c)),
{
    assert(suite_values(reorder_ciphers(order, c)) =~= reorder_ciphers(order, suite_values(c)));
}

/// Every ALPN name a profile lists is at most 8 bytes long, and a profile
/// lists at most 9 of them.
proof fn lemma_alpn_names_short(p: AlpnProfile)
    ensures
        alpn_list(p).len() <= 9,
        forall|k: int| 0 <= k < alpn_list(p).len() ==> #[trigger] alpn_list(p)[k].len() <= 8,
{
    assert forall|k: int| 0 <= k < alpn_list(p).len() implies #[trigger] alpn_list(p)[k].len()
        <= 8 by {
        if k == 0 {
        } else if k == 1 {
        } else if k == 2 {
        } else if k == 3 {
        } else if k == 4 {
        } else if k == 5 {
        } else if k == 6 {
        } else if k == 7 {
        } else {
        }
    }
}

/// Reordering a list of names keeps its length and the bound on each name.
proof fn lemma_reordered_names_short(order: ExtensionOrder, names: Seq<Seq<u8>>)
    requires
        forall|k: int| 0 <= k < names.len() ==> #[trigger] names[k].len() <= 8,
    ensures
        reorder_values(order, names).len() == names.len(),
        forall|k: int|
            0 <= k < names.len() ==> #[trigger] reorder_values(order, names)[k].len() <= 8,
{
    assert forall|k: int| 0 <= k < names.len() implies #[trigger] reorder_values(
        order,
        names,
    )[k].len() <= 8 by {
        if order == ExtensionOrder::Reverse {
            assert(names.reverse()[k] == names[names.len() - 1 - k]);
        }
    }
}

/// Names of at most 8 bytes take at most 9 bytes each in an ALPN list.
proof fn lemma_alpn_entries_len(names: Seq<Seq<u8>>)
    requires
        forall|k: int| 0 <= k < names.len() ==> #[trigger] names[k].len() <= 8,
    ensures
        alpn_entries(names).len() <= 9 * names.len(),
    decreases names.len(),
{
    if names.len() > 0 {
        lemma_alpn_entries_len(names.drop_last());
    }
}


/// A probe made from the given parts.
pub open spec fn probe(
    host: Seq<u8>,
    protocol_version: u16,
    cipher_list_kind: CipherListKind,
    cipher_list_order: CipherListOrder,
    extension_order: ExtensionOrder,
    alpn_profile: AlpnProfile,
    version_support: VersionSupport,
    grease: bool,
) -> ProbeModel {
    ProbeModel {
        host,
        protocol_version,
        cipher_list_kind,
        cipher_list_order,
        extension_order,
        alpn_profile,
        version_support,
        grease,
    }
}

/// The ten JARM probes for `host`, in canonical order: TLS 1.2 forward,
/// reverse, top half, bottom half and middle out; TLS 1.1 forward; TLS 1.3
/// forward, reverse, invalid (no TLS 1.3 suites) and middle out.
pub open spec fn jarm_probe_models(host: Seq<u8>) -> Seq<ProbeModel> {
    seq![
        probe(
            host,
            0x0303,
            CipherListKind::All,
            CipherListOrder::Forward,
            ExtensionOrder::Reverse,
            AlpnProfile::All,
            VersionSupport::Tls12,
            false,
        ),
        probe(
            host,
            0x0303,
            CipherListKind::All,
            CipherListOrder::Reverse,
            ExtensionOrder::Forward,
            AlpnProfile::All,
            VersionSupport::Tls12,
            false,
        ),
        probe(
            host,
            0x0303,
            CipherListKind::All,
            CipherListOrder::TopHalf,
            ExtensionOrder::Forward,
            AlpnProfile::All,
            VersionSupport::Absent,
            false,
        ),
        probe(
            host,
            0x0303,
            CipherListKind::All,
            CipherListOrder::BottomHalf,
            ExtensionOrder::Forward,
            AlpnProfile::Rare,
            VersionSupport::Absent,
            false,
        ),
        probe(
            host,
            0x0303,
            CipherListKind::All,
            CipherListOrder::MiddleOut,
            ExtensionOrder::Reverse,
            AlpnProfile::Rare,
            VersionSupport::Absent,
            true,
        ),
        probe(
            host,
            0x0302,
            CipherListKind::All,
            CipherListOrder::Forward,
            ExtensionOrder::Forward,
            AlpnProfile::All,
            VersionSupport::Absent,
            false,
        ),
        probe(
            host,
            0x0304,
            CipherListKind::All,
            CipherListOrder::Forward,
            ExtensionOrder::Reverse,
            AlpnProfile::All,
            VersionSupport::Tls13,
            false,
        ),
        probe(
            host,
            0x0304,
            CipherListKind::All,
            CipherListOrder::Reverse,
            ExtensionOrder::Forward,
            AlpnProfile::All,
            VersionSupport::Tls13,
            false,
        ),
        probe(
            host,
            0x0304,
            CipherListKind::NoTls13,
            CipherListOrder::Forward,
            ExtensionOrder::Forward,
            AlpnProfile::All,
            VersionSupport::Tls13,
            false,
        ),
        probe(
            host,
            0x0304,
            CipherListKind::All,
            CipherListOrder::MiddleOut,
            ExtensionOrder::Reverse,
            AlpnProfile::All,
            VersionSupport::Tls13,
            true,
        ),
    ]
}

/// How JARM's value lists relate: the TLS 1.3 version list is the TLS 1.2
/// one (TLS 1.0 to 1.2) with TLS 1.3 added, the rare ALPN profile is the full
/// one without `http/1.1` and `h2`, and the groups are X25519 and the NIST
/// curves P-256, P-384 and P-521, in that order.
pub proof fn law_jarm_value_lists()
    ensures
        tls12_supported_versions() == seq![0x0301u16, 0x0302u16, 0x0303u16],
        tls13_supported_versions() == tls12_supported_versions().push(0x0304),
        all_alpns().len() == 9,
        all_alpns()[2] == seq![104u8, 116u8, 116u8, 112u8, 47u8, 49u8, 46u8, 49u8],
        all_alpns()[6] == seq![104u8, 50u8],
        rare_alpns() == all_alpns().remove(6).remove(2),
        jarm_supported_groups() == seq![0x001du16, 0x0017u16, 0x0018u16, 0x0019u16],
{
    assert(tls13_supported_versions() =~= tls12_supported_versions().push(0x0304));
    assert(rare_alpns() =~= all_alpns().remove(6).remove(2));
}

/// The ten JARM probes, in canonical order, with the parameters JARM gives
/// each: protocol version, cipher list and its order, the order of ALPN
/// protocols and versions, the ALPN profile, the `supported_versions` list,
/// and whether the probe carries GREASE values.
pub proof fn law_jarm_probe_table(host: Seq<u8>)
    ensures
        jarm_probe_models(host).len() == 10,
        // tls1_2_forward
        ({
            let d = jarm_probe_models(host)[0];
            &&& d.host == host
            &&& d.protocol_version == 0x0303
            &&& d.cipher_list_kind == CipherListKind::All
            &&& d.cipher_list_order == CipherListOrder::Forward
            &&& d.extension_order == ExtensionOrder::Reverse
            &&& d.alpn_profile == AlpnProfile::All
            &&& d.version_support == VersionSupport::Tls12
            &&& d.grease == false
        }),
        // tls1_2_reverse
        ({
            let d = jarm_probe_models(host)[1];
            &&& d.host == host
            &&& d.protocol_version == 0x0303
            &&& d.cipher_list_kind == CipherListKind::All
            &&& d.cipher_list_order == CipherListOrder::Reverse
            &&& d.extension_order == ExtensionOrder::Forward
            &&& d.alpn_profile == AlpnProfile::All
            &&& d.version_support == VersionSupport::Tls12
            &&& d.grease == false
        }),
        // tls1_2_top_half
        ({
            let d = jarm_probe_models(host)[2];
            &&& d.host == host
            &&& d.protocol_version == 0x0303
            &&& d.cipher_list_kind == CipherListKind::All
            &&& d.cipher_list_order == CipherListOrder::TopHalf
            &&& d.extension_order == ExtensionOrder::Forward
            &&& d.alpn_profile == AlpnProfile::All
            &&& d.version_support == VersionSupport::Absent
            &&& d.grease == false
        }),
        // tls1_2_bottom_half
        ({
            let d = jarm_probe_models(host)[3];
            &&& d.host == host
            &&& d.protocol_version == 0x0303
            &&& d.cipher_list_kind == CipherListKind::All
            &&& d.cipher_list_order == CipherListOrder::BottomHalf
            &&& d.extension_order == ExtensionOrder::Forward
            &&& d.alpn_profile == AlpnProfile::Rare
            &&& d.version_support == VersionSupport::Absent
            &&& d.grease == false
        }),
        // tls1_2_middle_out
        ({
            let d = jarm_probe_models(host)[4];
            &&& d.host == host
            &&& d.protocol_version == 0x0303
            &&& d.cipher_list_kind == CipherListKind::All
            &&& d.cipher_list_order == CipherListOrder::MiddleOut
            &&& d.extension_order == ExtensionOrder::Reverse
            &&& d.alpn_profile == AlpnProfile::Rare
            &&& d.version_support == VersionSupport::Absent
            &&& d.grease == true
        }),
        // tls1_1_middle_out
        ({
            let d = jarm_probe_models(host)[5];
            &&& d.host == host
            &&& d.protocol_version == 0x0302
            &&& d.cipher_list_kind == CipherListKind::All
            &&& d.cipher_list_order == CipherListOrder::Forward
            &&& d.extension_order == ExtensionOrder::Forward
            &&& d.alpn_profile == AlpnProfile::All
            &&& d.version_support == VersionSupport::Absent
            &&& d.grease == false
        }),
        // tls1_3_forward
        ({
            let d = jarm_probe_models(host)[6];
            &&& d.host == host
            &&& d.protocol_version == 0x0304
            &&& d.cipher_list_kind == CipherListKind::All
            &&& d.cipher_list_order == CipherListOrder::Forward
            &&& d.extension_order == ExtensionOrder::Reverse
            &&& d.alpn_profile == AlpnProfile::All
            &&& d.version_support == VersionSupport::Tls13
            &&& d.grease == false
        }),
        // tls1_3_reverse
        ({
            let d = jarm_probe_models(host)[7];
            &&& d.host == host
            &&& d.protocol_version == 0x0304
            &&& d.cipher_list_kind == CipherListKind::All
            &&& d.cipher_list_order == CipherListOrder::Reverse
            &&& d.extension_order == ExtensionOrder::Forward
            &&& d.alpn_profile == AlpnProfile::All
            &&& d.version_support == VersionSupport::Tls13
            &&& d.grease == false
        }),
        // tls1_3_invalid
        ({
            let d = jarm_probe_models(host)[8];
            &&& d.host == host
            &&& d.protocol_version == 0x0304
            &&& d.cipher_list_kind == CipherListKind::NoTls13
            &&& d.cipher_list_order == CipherListOrder::Forward
            &&& d.extension_order == ExtensionOrder::Forward
            &&& d.alpn_profile == AlpnProfile::All
            &&& d.version_support == VersionSupport::Tls13
            &&& d.grease == false
        }),
        // tls1_3_middle_out
        ({
            let d = jarm_probe_models(host)[9];
            &&& d.host == host
            &&& d.protocol_version == 0x0304
            &&& d.cipher_list_kind == CipherListKind::All
            &&& d.cipher_list_order == CipherListOrder::MiddleOut
            &&& d.extension_order == ExtensionOrder::Reverse
            &&& d.alpn_profile == AlpnProfile::All
            &&& d.version_support == VersionSupport::Tls13
            &&& d.grease == true
        }),
{
}

/// How the cipher lists of the probes relate: the TLS 1.2 and TLS 1.3
/// forward probes offer JARM's full list as it stands, first
/// `TLS_DHE_RSA_WITH_3DES_EDE_CBC_SHA`; the reverse probes offer it
/// backwards, first `TLS_RSA_WITH_RC4_128_SHA`; the top-half probe turned
/// around followed by the bottom-half probe is the forward list; the
/// middle-out probes offer the forward list rearranged, after a GREASE value;
/// the invalid TLS 1.3 probe offers no TLS 1.3 suite.
pub proof fn law_jarm_probe_cipher_lists(host: Seq<u8>, e: EntropyModel)
    ensures
        ({
            let suites = |i: int| probe_cipher_suites(jarm_probe_models(host)[i], e);
            &&& suites(0) == all_cipher_suites()
            &&& suites(0).len() == 69
            &&& suites(0)[0] == 0x0016
            &&& suites(1) == suites(0).reverse()
            &&& suites(1)[0] == 0x0005
            &&& suites(6) == suites(0)
            &&& suites(7) == suites(6).reverse()
            &&& suites(7)[0] == 0x0005
            &&& suites(7)[68] == 0x0016
            &&& suites(2).reverse() + suites(3) == suites(0)
            &&& suites(4) == seq![e.grease_suite] + reorder_ciphers(
                CipherListOrder::MiddleOut,
                suites(0),
            )
            &&& suites(9) == suites(4)
            &&& forall|k: int|
                0 <= k < suites(8).len() ==> !(0x1301 <= #[trigger] suites(8)[k] <= 0x1305)
        }),
{
    let all = all_cipher_suites();
    law_reorder_halves_partition(all);
    let inv = no_tls13_cipher_suites();
    assert forall|k: int| 0 <= k < inv.len() implies !(0x1301 <= #[trigger] inv[k] <= 0x1305) by {
    }
}

/// The records of the first `n` probes, or the error of the first probe
/// among them that cannot be built.
pub open spec fn collect_probes(models: Seq<ProbeModel>, entropy: Seq<EntropyModel>, n: nat) -> Result<
    Seq<Seq<u8>>,
    Error,
>
    decreases n,
{
    if n == 0 {
        Ok(Seq::empty())
    } else {
        match collect_probes(models, entropy, (n - 1) as nat) {
            Err(e) => Err(e),
            Ok(done) => match probe_bytes(models[n - 1], entropy[n - 1]) {
                Ok(b) => Ok(done.push(b)),
                Err(e) => Err(e),
            },
        }
    }
}

/// The ten JARM probe records for `host`, probe `i` drawing its random values
/// from `entropy[i]`; or the error of the first probe that cannot be built.
pub open spec fn jarm_probes(host: Seq<u8>, entropy: Seq<EntropyModel>) -> Result<
    Seq<Seq<u8>>,
    Error,
> {
    collect_probes(jarm_probe_models(host), entropy, 10)
}

/// Once a probe fails, the collection fails with its error.
proof fn lemma_collect_probes_err(
    models: Seq<ProbeModel>,
    entropy: Seq<EntropyModel>,
    i: nat,
    n: nat,
)
    requires
        i <= n,
        collect_probes(models, entropy, i) is Err,
    ensures
        collect_probes(models, entropy, n) == collect_probes(models, entropy, i),
    decreases n - i,
{
    if i < n {
        lemma_collect_probes_err(models, entropy, i, (n - 1) as nat);
    }
}

/// The byte strings held by a list of vectors.
pub open spec fn byte_strings(v: Seq<Vec<u8>>) -> Seq<Seq<u8>> {
    v.map_values(|b: Vec<u8>| b@)
}

/// The models of a list of entropies.
pub open spec fn entropy_models(v: Seq<JarmProbeEntropy>) -> Seq<EntropyModel> {
    v.map_values(|e: JarmProbeEntropy| e@)
}

impl JarmProbeDefinition {
    fn create(
        host: &[u8],
        protocol_version: TlsVersion,
        cipher_list_kind: CipherListKind,
        cipher_list_order: CipherListOrder,
        extension_order: ExtensionOrder,
        alpn_profile: AlpnProfile,
        version_support: VersionSupport,
        grease: bool,
    ) -> (r: Self)
        ensures
            r@ == probe(
                host@,
                protocol_version@,
                cipher_list_kind,
                cipher_list_order,
                extension_order,
                alpn_profile,
                version_support,
                grease,
            ),
    {
        Self {
            host: vstd::slice::slice_to_vec(host),
            protocol_version,
            cipher_list_kind,
            cipher_list_order,
            extension_order,
            alpn_profile,
            version_support,
            grease,
        }
    }
}

/// The ten JARM probe definitions for `host`, in canonical order.
fn jarm_probe_definitions(host: &[u8]) -> (r: Vec<JarmProbeDefinition>)
    ensures
        r@.len() == 10,
        forall|i: int| 0 <= i < 10 ==> #[trigger] r@[i]@ == jarm_probe_models(host@)[i],
{
    let tls11 = TlsVersion::TLS11();
    let tls12 = TlsVersion::TLS12();
    let tls13 = TlsVersion::TLS13();
    let r = vec![
        // tls1_2_forward
        JarmProbeDefinition::create(
            host,
            tls12,
            CipherListKind::All,
            CipherListOrder::Forward,
            ExtensionOrder::Reverse,
            AlpnProfile::All,
            VersionSupport::Tls12,
            false,
        ),
        // tls1_2_reverse
        JarmProbeDefinition::create(
            host,
            tls12,
            CipherListKind::All,
            CipherListOrder::Reverse,
            ExtensionOrder::Forward,
            AlpnProfile::All,
            VersionSupport::Tls12,
            false,
        ),
        // tls1_2_top_half
        JarmProbeDefinition::create(
            host,
            tls12,
            CipherListKind::All,
            CipherListOrder::TopHalf,
            ExtensionOrder::Forward,
            AlpnProfile::All,
            VersionSupport::Absent,
            false,
        ),
        // tls1_2_bottom_half
        JarmProbeDefinition::create(
            host,
            tls12,
            CipherListKind::All,
            CipherListOrder::BottomHalf,
            ExtensionOrder::Forward,
            AlpnProfile::Rare,
            VersionSupport::Absent,
            false,
        ),
        // tls1_2_middle_out
        JarmProbeDefinition::create(
            host,
            tls12,
            CipherListKind::All,
            CipherListOrder::MiddleOut,
            ExtensionOrder::Reverse,
            AlpnProfile::Rare,
            VersionSupport::Absent,
            true,
        ),
        // tls1_1_middle_out
        JarmProbeDefinition::create(
            host,
            tls11,
            CipherListKind::All,
            CipherListOrder::Forward,
            ExtensionOrder::Forward,
            AlpnProfile::All,
            VersionSupport::Absent,
            false,
        ),
        // tls1_3_forward
        JarmProbeDefinition::create(
            host,
            tls13,
            CipherListKind::All,
            CipherListOrder::Forward,
            ExtensionOrder::Reverse,
            AlpnProfile::All,
            VersionSupport::Tls13,
            false,
        ),
        // tls1_3_reverse
        JarmProbeDefinition::create(
            host,
            tls13,
            CipherListKind::All,
            CipherListOrder::Reverse,
            ExtensionOrder::Forward,
            AlpnProfile::All,
            VersionSupport::Tls13,
            false,
        ),
        // tls1_3_invalid
        JarmProbeDefinition::create(
            host,
            tls13,
            CipherListKind::NoTls13,
            CipherListOrder::Forward,
            ExtensionOrder::Forward,
            AlpnProfile::All,
            VersionSupport::Tls13,
            false,
        ),
        // tls1_3_middle_out
        JarmProbeDefinition::create(
            host,
            tls13,
            CipherListKind::All,
            CipherListOrder::MiddleOut,
            ExtensionOrder::Reverse,
            AlpnProfile::All,
            VersionSupport::Tls13,
            true,
        ),
    ];
    r
}

/// Builds the ten JARM `ClientHello` probes for `host` in canonical order,
/// probe `i` taking its random values from `entropy[i]`.
///
/// Each returned byte vector is a complete TLS record. [`generate_jarm_probes`]
/// draws the random values from the operating system.
///
/// # Errors
///
/// As [`generate_jarm_probes`].
pub fn generate_jarm_probes_with(host: &str, entropy: &[JarmProbeEntropy; 10]) -> (r: Result<
    Vec<Vec<u8>>,
    Error,
>)
    requires
        host.spec_bytes().len() + 5 <= usize::MAX,
    ensures
        match r {
            Ok(v) => jarm_probes(host.spec_bytes(), entropy_models(entropy@)) == Ok::<
                Seq<Seq<u8>>,
                Error,
            >(byte_strings(v@)),
            Err(e) => jarm_probes(host.spec_bytes(), entropy_models(entropy@)) == Err::<
                Seq<Seq<u8>>,
                Error,
            >(e),
        },
        host.spec_bytes().len() <= 15000 ==> r is Ok,
{
    proof {
        if host.spec_bytes().len() <= 15000 {
            law_jarm_probes_build_for_short_hosts(host.spec_bytes(), entropy_models(entropy@));
        }
    }
    let host_bytes = host.as_bytes_vec();
    let definitions = jarm_probe_definitions(host_bytes.as_slice());
    let ghost models = jarm_probe_models(host.spec_bytes());
    let ghost ents = entropy_models(entropy@);
    let mut probes: Vec<Vec<u8>> = Vec::new();
    assert(byte_strings(probes@) =~= Seq::<Seq<u8>>::empty());
    let mut i: usize = 0;
    while i < 10
        invariant
            i <= 10,
            definitions@.len() == 10,
            forall|k: int| 0 <= k < 10 ==> #[trigger] definitions@[k]@ == models[k],
            models == jarm_probe_models(host.spec_bytes()),
            ents == entropy_models(entropy@),
            host.spec_bytes().len() + 5 <= usize::MAX,
            probes@.len() == i,
            host.spec_bytes().len() <= 15000 ==> jarm_probes(host.spec_bytes(), ents) is Ok,
            collect_probes(models, ents, i as nat) == Ok::<Seq<Seq<u8>>, Error>(
                byte_strings(probes@),
            ),
        decreases 10 - i,
    {
        let definition = &definitions[i];
        assert(definition@ == models[i as int]);
        assert(ents[i as int] == entropy[i as int]@);
        match definition.client_hello_probe(&entropy[i]) {
            Ok(bytes) => {
                let ghost before = probes@;
                probes.push(bytes);
                assert(byte_strings(probes@) =~= byte_strings(before).push(probes@[i as int]@));
            },
            Err(e) => {
                proof {
                    lemma_collect_probes_err(models, ents, (i + 1) as nat, 10);
                }
                return Err(e);
            },
        }
        i = i + 1;
    }
    Ok(probes)
}

/// Builds the ten JARM `ClientHello` probes for `host` in canonical order.
///
/// Each returned byte vector is a complete TLS record ready to send over a
/// separate TCP connection to the target server. The random values of each
/// probe are drawn from the operating system.
///
/// This function does not resolve the host or open any network connections.
///
/// # Errors
///
/// Returns [`Error::LengthOverflow`] when the host or an encoded TLS field
/// cannot fit in its protocol length field, or [`Error::Malformed`] if a
/// generated `ClientHello` is invalid. A host name of at most 15000 bytes
/// always fits.
pub fn generate_jarm_probes(host: &str) -> (r: Result<Vec<Vec<u8>>, Error>)
    requires
        host.spec_bytes().len() + 5 <= usize::MAX,
    ensures
        exists|entropy: Seq<EntropyModel>|
            #![trigger jarm_probes(host.spec_bytes(), entropy)]
            {
                &&& entropy.len() == 10
                &&& forall|i: int| 0 <= i < 10 ==> entropy_valid(#[trigger] entropy[i])
                &&& match r {
                    Ok(v) => jarm_probes(host.spec_bytes(), entropy) == Ok::<
                        Seq<Seq<u8>>,
                        Error,
                    >(byte_strings(v@)),
                    Err(e) => jarm_probes(host.spec_bytes(), entropy) == Err::<
                        Seq<Seq<u8>>,
                        Error,
                    >(e),
                }
            },
        host.spec_bytes().len() <= 15000 ==> r is Ok,
{
    let entropy = [
        JarmProbeEntropy::random(),
        JarmProbeEntropy::random(),
        JarmProbeEntropy::random(),
        JarmProbeEntropy::random(),
        JarmProbeEntropy::random(),
        JarmProbeEntropy::random(),
        JarmProbeEntropy::random(),
        JarmProbeEntropy::random(),
        JarmProbeEntropy::random(),
        JarmProbeEntropy::random(),
    ];
    let r = generate_jarm_probes_with(host, &entropy);
    let ghost drawn = entropy_models(entropy@);
    assert(forall|i: int| 0 <= i < 10 ==> entropy_valid(#[trigger] drawn[i]));
    assert(drawn.len() == 10);
    r
}

/// Each extension of a block, with its four header bytes, lies within the
/// block's wire form.
proof fn lemma_extension_within_block(exts: Seq<ExtensionModel>, i: int)
    requires
        0 <= i < exts.len(),
    ensures
        exts[i].data.len() + 4 <= encode_extensions(exts).len(),
    decreases exts.len(),
{
    reveal_with_fuel(encode_extensions, 1);
    assert(encode_extensions(exts).len() == 4 + exts[0].data.len() + encode_extensions(
        exts.drop_first(),
    ).len());
    if i > 0 {
        lemma_extension_within_block(exts.drop_first(), i - 1);
        assert(exts.drop_first()[i - 1] == exts[i]);
    }
}

/// `b` is one complete handshake record, read back whole, whose payload is
/// one `ClientHello` handshake message that reads back as the `ClientHello`
/// of probe `d` with random values `e`: its legacy version is the probe's
/// version in legacy form, and its cipher suites are the probe's list in the
/// probe's order, after a GREASE value for GREASE probes.
pub open spec fn reads_back_as_probe(b: Seq<u8>, d: ProbeModel, e: EntropyModel) -> bool {
    let hello = probe_client_hello(d, e);
    let body = encode_client_hello(hello);
    let payload = encode_handshake(HandshakeModel { msg_type: 1, body });
    &&& parse_record(b) == Ok::<(RecordModel, int), Error>(
        (
            RecordModel { content_type: 22, legacy_version: probe_record_version(d), payload },
            b.len() as int,
        ),
    )
    &&& parse_handshake(payload) == Ok::<(HandshakeModel, int), Error>(
        (HandshakeModel { msg_type: 1, body }, payload.len() as int),
    )
    &&& parse_client_hello(body) == Ok::<ClientHelloModel, Error>(hello)
    &&& hello.legacy_version == legacy_version_of(d.protocol_version)
    &&& hello.cipher_suites == probe_cipher_suites(d, e)
    &&& hello.extensions == probe_extensions(d, e)
}

/// The records of the first `n` probes, when they all build, are the probes'
/// own records.
proof fn lemma_collect_probes_entries(models: Seq<ProbeModel>, entropy: Seq<EntropyModel>, n: nat)
    requires
        collect_probes(models, entropy, n) is Ok,
    ensures
        collect_probes(models, entropy, n)->Ok_0.len() == n,
        forall|i: int|
            0 <= i < n ==> probe_bytes(models[i], entropy[i]) == Ok::<Seq<u8>, Error>(
                #[trigger] collect_probes(models, entropy, n)->Ok_0[i],
            ),
    decreases n,
{
    if n > 0 {
        lemma_collect_probes_entries(models, entropy, (n - 1) as nat);
    }
}

/// When the ten probes for a host build, each of them reads back as a
/// `ClientHello` record of its probe definition, in canonical order.
pub proof fn law_jarm_probes_read_back(host: Seq<u8>, entropy: Seq<EntropyModel>)
    requires
        entropy.len() == 10,
        forall|i: int| 0 <= i < 10 ==> entropy_sized(#[trigger] entropy[i]),
        jarm_probes(host, entropy) is Ok,
    ensures
        jarm_probes(host, entropy)->Ok_0.len() == 10,
        forall|i: int|
            0 <= i < 10 ==> reads_back_as_probe(
                #[trigger] jarm_probes(host, entropy)->Ok_0[i],
                jarm_probe_models(host)[i],
                entropy[i],
            ),
{
    let models = jarm_probe_models(host);
    lemma_collect_probes_entries(models, entropy, 10);
    assert forall|i: int| 0 <= i < 10 implies reads_back_as_probe(
        #[trigger] jarm_probes(host, entropy)->Ok_0[i],
        models[i],
        entropy[i],
    ) by {
        assert(probe_bytes(models[i], entropy[i]) == Ok::<Seq<u8>, Error>(
            collect_probes(models, entropy, 10)->Ok_0[i],
        ));
        law_probe_is_client_hello_record(models[i], entropy[i]);
    }
}

/// A probe that is built is one complete TLS handshake record, read back
/// whole, whose payload is one `ClientHello` handshake message that reads
/// back as the probe's `ClientHello`.
pub proof fn law_probe_is_client_hello_record(d: ProbeModel, e: EntropyModel)
    requires
        entropy_sized(e),
        probe_bytes(d, e) is Ok,
    ensures
        reads_back_as_probe(probe_bytes(d, e)->Ok_0, d, e),
{
    reveal(probe_bytes);
    let hello = probe_client_hello(d, e);
    let exts = hello.extensions;
    let body = encode_client_hello(hello);
    let h = HandshakeModel { msg_type: 1, body };
    let payload = encode_handshake(h);
    let rec = RecordModel {
        content_type: 22,
        legacy_version: probe_record_version(d),
        payload,
    };
    assert forall|i: int| 0 <= i < exts.len() implies #[trigger] extension_fits(exts[i]) by {
        lemma_extension_within_block(exts, i);
    }
    assert(client_hello_valid(hello));
    law_client_hello_round_trip(hello);
    law_handshake_round_trip(h, Seq::empty());
    assert(payload + Seq::<u8>::empty() =~= payload);
    law_record_round_trip(rec, Seq::empty());
    assert(encode_record(rec) + Seq::<u8>::empty() =~= encode_record(rec));
}

/// The wire length of an extension block depends only on the number of
/// extensions and the lengths of their payloads.
proof fn lemma_encode_extensions_len(x: Seq<ExtensionModel>, y: Seq<ExtensionModel>)
    requires
        x.len() == y.len(),
        forall|i: int| 0 <= i < x.len() ==> #[trigger] x[i].data.len() == y[i].data.len(),
    ensures
        encode_extensions(x).len() == encode_extensions(y).len(),
    decreases x.len(),
{
    if x.len() > 0 {
        assert forall|i: int| 0 <= i < x.drop_first().len() implies #[trigger] x.drop_first()[
            i
        ].data.len() == y.drop_first()[i].data.len() by {
            assert(x[i + 1].data.len() == y[i + 1].data.len());
        }
        lemma_encode_extensions_len(x.drop_first(), y.drop_first());
    }
}

/// Whether a probe can be built, and the error it fails with, do not depend
/// on its random values.
pub proof fn law_probe_outcome_independent_of_entropy(
    d: ProbeModel,
    e1: EntropyModel,
    e2: EntropyModel,
)
    requires
        entropy_sized(e1),
        entropy_sized(e2),
    ensures
        probe_bytes(d, e1) is Ok <==> probe_bytes(d, e2) is Ok,
        probe_bytes(d, e1) is Err ==> probe_bytes(d, e1) == probe_bytes(d, e2),
{
    reveal(probe_bytes);
    let x = probe_extensions(d, e1);
    let y = probe_extensions(d, e2);
    assert(key_share_data(d, e1).len() == key_share_data(d, e2).len());
    assert(supported_versions_data(d, e1).len() == supported_versions_data(d, e2).len());
    assert(x.len() == y.len());
    assert forall|i: int| 0 <= i < x.len() implies #[trigger] x[i].data.len() == y[i].data.len() by {
        if d.grease {
            if i == 0 {
            } else if i == 10 {
            }
        } else {
            if i == 9 {
            }
        }
    }
    lemma_encode_extensions_len(x, y);
    assert(probe_cipher_suites(d, e1).len() == probe_cipher_suites(d, e2).len());
    let h1 = probe_client_hello(d, e1);
    let h2 = probe_client_hello(d, e2);
    assert(encode_client_hello(h1).len() == encode_client_hello(h2).len());
}

/// The wire length of two extension blocks one after another is the sum of
/// their lengths.
proof fn lemma_encode_extensions_concat(a: Seq<ExtensionModel>, b: Seq<ExtensionModel>)
    ensures
        encode_extensions(a + b).len() == encode_extensions(a).len() + encode_extensions(b).len(),
    decreases a.len(),
{
    if a.len() > 0 {
        assert((a + b).drop_first() =~= a.drop_first() + b);
        lemma_encode_extensions_concat(a.drop_first(), b);
    } else {
        assert(a + b =~= b);
    }
}

/// The extensions every probe sends, between the optional GREASE one and
/// the optional `supported_versions` one.
spec fn probe_middle_extensions(d: ProbeModel, e: EntropyModel) -> Seq<ExtensionModel> {
    seq![
        ext(0x0000, server_name_data(d.host)),
        ext(0x0017, Seq::empty()),
        ext(0x0001, seq![1u8]),
        ext(0xff01, seq![0u8]),
        ext(0x000a, supported_groups_data()),
        ext(0x000b, seq![1u8, 0u8]),
        ext(0x0023, Seq::empty()),
        ext(0x0010, alpn_data(d)),
        ext(0x000d, signature_algorithms_data()),
        ext(0x0033, key_share_data(d, e)),
        ext(0x002d, seq![1u8, 1u8]),
    ]
}

/// The middle extensions take four header bytes each besides their payloads.
proof fn lemma_middle_extensions_len(d: ProbeModel, e: EntropyModel)
    ensures
        encode_extensions(probe_middle_extensions(d, e)).len() == 44 + server_name_data(d.host).len()
            + 1 + 1 + supported_groups_data().len() + 2 + alpn_data(d).len()
            + signature_algorithms_data().len() + key_share_data(d, e).len() + 2,
{
    let m = probe_middle_extensions(d, e);
    assert(m.take(0) =~= Seq::<ExtensionModel>::empty());
    lemma_encode_extensions_push(m.take(0), m[0]);
    assert(m.take(1) =~= m.take(0).push(m[0]));
    lemma_encode_extensions_push(m.take(1), m[1]);
    assert(m.take(2) =~= m.take(1).push(m[1]));
    lemma_encode_extensions_push(m.take(2), m[2]);
    assert(m.take(3) =~= m.take(2).push(m[2]));
    lemma_encode_extensions_push(m.take(3), m[3]);
    assert(m.take(4) =~= m.take(3).push(m[3]));
    lemma_encode_extensions_push(m.take(4), m[4]);
    assert(m.take(5) =~= m.take(4).push(m[4]));
    lemma_encode_extensions_push(m.take(5), m[5]);
    assert(m.take(6) =~= m.take(5).push(m[5]));
    lemma_encode_extensions_push(m.take(6), m[6]);
    assert(m.take(7) =~= m.take(6).push(m[6]));
    lemma_encode_extensions_push(m.take(7), m[7]);
    assert(m.take(8) =~= m.take(7).push(m[7]));
    lemma_encode_extensions_push(m.take(8), m[8]);
    assert(m.take(9) =~= m.take(8).push(m[8]));
    lemma_encode_extensions_push(m.take(9), m[9]);
    assert(m.take(10) =~= m.take(9).push(m[9]));
    lemma_encode_extensions_push(m.take(10), m[10]);
    assert(m.take(11) =~= m.take(10).push(m[10]));
    assert(m.take(11) =~= m);
}

/// The extension block of a probe takes at most 230 bytes besides the host
/// name, and a probe offers between 1 and 70 cipher suites.
proof fn lemma_probe_sizes(d: ProbeModel, e: EntropyModel)
    requires
        entropy_sized(e),
    ensures
        encode_extensions(probe_extensions(d, e)).len() <= 230 + d.host.len(),
        1 <= probe_cipher_suites(d, e).len() <= 70,
{
    let front: Seq<ExtensionModel> = if d.grease {
        seq![ext(e.grease_extension, Seq::empty())]
    } else {
        Seq::empty()
    };
    let middle = probe_middle_extensions(d, e);
    lemma_middle_extensions_len(d, e);
    let back: Seq<ExtensionModel> = if sends_supported_versions(d) {
        seq![ext(0x002b, supported_versions_data(d, e))]
    } else {
        Seq::empty()
    };
    assert(probe_extensions(d, e) =~= front + middle + back);
    lemma_encode_extensions_concat(front + middle, back);
    lemma_encode_extensions_concat(front, middle);
    reveal_with_fuel(encode_extensions, 2);
    lemma_alpn_names_short(d.alpn_profile);
    lemma_reordered_names_short(d.extension_order, alpn_list(d.alpn_profile));
    lemma_alpn_entries_len(reorder_values(d.extension_order, alpn_list(d.alpn_profile)));
    assert(alpn_data(d).len() <= 83);
    assert(key_share_data(d, e).len() <= 43);
    assert(encode_extensions(front).len() <= 4);
    assert(encode_extensions(back).len() <= 15);
    assert(encode_extensions(middle).len() <= 211 + d.host.len());
    let c = cipher_list(d.cipher_list_kind);
    assert(c.len() == 69 || c.len() == 64);
    assert(1 <= reorder_ciphers(d.cipher_list_order, c).len() <= 69);
}

/// A probe for a host name of at most 15000 bytes can always be built.
pub proof fn law_probe_builds_for_short_hosts(d: ProbeModel, e: EntropyModel)
    requires
        entropy_sized(e),
        d.host.len() <= 15000,
    ensures
        probe_bytes(d, e) is Ok,
{
    reveal(probe_bytes);
    lemma_probe_sizes(d, e);
}

/// The ten probes for a host name of at most 15000 bytes can always be built.
pub proof fn law_jarm_probes_build_for_short_hosts(host: Seq<u8>, entropy: Seq<EntropyModel>)
    requires
        host.len() <= 15000,
        entropy.len() == 10,
        forall|i: int| 0 <= i < 10 ==> entropy_sized(#[trigger] entropy[i]),
    ensures
        jarm_probes(host, entropy) is Ok,
{
    lemma_collect_probes_ok(jarm_probe_models(host), entropy, 10);
}

/// Probes whose host names are short all build.
proof fn lemma_collect_probes_ok(models: Seq<ProbeModel>, entropy: Seq<EntropyModel>, n: nat)
    requires
        n <= models.len(),
        n <= entropy.len(),
        forall|i: int| 0 <= i < n ==> entropy_sized(#[trigger] entropy[i]),
        forall|i: int| 0 <= i < n ==> (#[trigger] models[i]).host.len() <= 15000,
    ensures
        collect_probes(models, entropy, n) is Ok,
    decreases n,
{
    if n > 0 {
        lemma_collect_probes_ok(models, entropy, (n - 1) as nat);
        law_probe_builds_for_short_hosts(models[n - 1], entropy[n - 1]);
    }
}

/// Whether the ten probes for a host can be built, and the error they fail
/// with, do not depend on their random values.
pub proof fn law_jarm_probes_outcome_independent_of_entropy(
    host: Seq<u8>,
    e1: Seq<EntropyModel>,
    e2: Seq<EntropyModel>,
)
    requires
        e1.len() == 10,
        e2.len() == 10,
        forall|i: int| 0 <= i < 10 ==> entropy_sized(#[trigger] e1[i]),
        forall|i: int| 0 <= i < 10 ==> entropy_sized(#[trigger] e2[i]),
    ensures
        jarm_probes(host, e1) is Ok <==> jarm_probes(host, e2) is Ok,
        jarm_probes(host, e1) is Err ==> jarm_probes(host, e1) == jarm_probes(host, e2),
{
    lemma_collect_outcome(jarm_probe_models(host), e1, e2, 10);
}

/// The first `n` probes fail, or not, alike under any two valid entropies.
proof fn lemma_collect_outcome(
    models: Seq<ProbeModel>,
    e1: Seq<EntropyModel>,
    e2: Seq<EntropyModel>,
    n: nat,
)
    requires
        n <= e1.len(),
        n <= e2.len(),
        forall|i: int| 0 <= i < n ==> entropy_sized(#[trigger] e1[i]),
        forall|i: int| 0 <= i < n ==> entropy_sized(#[trigger] e2[i]),
    ensures
        collect_probes(models, e1, n) is Ok <==> collect_probes(models, e2, n) is Ok,
        collect_probes(models, e1, n) is Err ==> collect_probes(models, e1, n)
            == collect_probes(models, e2, n),
    decreases n,
{
    if n > 0 {
        lemma_collect_outcome(models, e1, e2, (n - 1) as nat);
        law_probe_outcome_independent_of_entropy(models[n - 1], e1[n - 1], e2[n - 1]);
    }
}

/// What JARM reads from one answer: the chosen cipher suite, the low byte
/// of the legacy version, the selected ALPN protocol (empty without one)
/// and the extension types in wire order.
pub struct JarmAnswer {
    pub cipher_suite: u16,
    pub version_byte: u8,
    pub alpn: Seq<u8>,
    pub extension_types: Seq<u16>,
}

/// What JARM reads from a response; a response whose ALPN extension does not
/// parse counts as no response.
pub open spec fn jarm_answer(h: Option<ServerHelloModel>) -> Option<JarmAnswer> {
    match h {
        None => None,
        Some(m) => match selected_alpn(m) {
            Err(_) => None,
            Ok(a) => Some(
                JarmAnswer {
                    cipher_suite: m.cipher_suite,
                    version_byte: (m.legacy_version % 256) as u8,
                    alpn: match a {
                        Some(p) => p,
                        None => Seq::empty(),
                    },
                    extension_types: m.extensions.map_values(|e: ExtensionModel| e.ext_type),
                },
            ),
        },
    }
}

/// The models of a list of optional `ServerHello`s.
pub open spec fn hello_models(s: Seq<Option<TlsServerHello>>) -> Seq<Option<ServerHelloModel>> {
    s.map_values(
        |o: Option<TlsServerHello>|
            match o {
                Some(h) => Some(h@),
                None => None,
            },
    )
}

/// The answers to the ten probes: entry `i` of `hellos` answers probe `i`;
/// entries past the tenth are ignored and missing ones count as absent.
pub open spec fn jarm_answers(hellos: Seq<Option<ServerHelloModel>>) -> Seq<Option<JarmAnswer>> {
    Seq::new(
        10,
        |i: int|
            if i < hellos.len() {
                jarm_answer(hellos[i])
            } else {
                None
            },
    )
}

/// `i` is the first position of `v` in `s`.
pub open spec fn is_first_index(s: Seq<u16>, v: u16, i: int) -> bool {
    &&& 0 <= i < s.len()
    &&& s[i] == v
    &&& forall|j: int| 0 <= j < i ==> s[j] != v
}

/// The JARM number of a cipher suite: one more than its position in the JARM
/// cipher order, or one more than the length of that order if it is absent.
pub open spec fn cipher_ordinal(c: u16) -> nat {
    if exists|i: int| is_first_index(jarm_cipher_order(), c, i) {
        ((choose|i: int| is_first_index(jarm_cipher_order(), c, i)) + 1) as nat
    } else {
        jarm_cipher_order().len() + 1
    }
}

/// The suite at position `k` of the JARM order, listed nowhere before it,
/// is numbered `k + 1`.
proof fn lemma_cipher_ordinal_at(k: int)
    requires
        0 <= k < jarm_cipher_order().len(),
    ensures
        cipher_ordinal(jarm_cipher_order()[k]) == k + 1,
{
    let s = jarm_cipher_order();
    assert forall|j: int| 0 <= j < k implies s[j] != s[k] by {
    }
    assert(is_first_index(s, s[k], k));
    let c = choose|i: int| is_first_index(s, s[k], i);
    assert(c == k) by {
        if c < k {
            assert(s[c] != s[k]);
        } else if c > k {
            assert(s[k] != s[k]);
        }
    }
}

/// The JARM number of each suite of JARM's cipher order: one more than its
/// position in that order, from 1 for `TLS_RSA_WITH_RC4_128_MD5` to 69 for
/// `TLS_AES_128_CCM_8_SHA256`.
pub proof fn law_jarm_cipher_numbers()
    ensures
        cipher_ordinal(0x0004) == 1, // TLS_RSA_WITH_RC4_128_MD5
        cipher_ordinal(0x0005) == 2, // TLS_RSA_WITH_RC4_128_SHA
        cipher_ordinal(0x0007) == 3, // TLS_RSA_WITH_IDEA_CBC_SHA
        cipher_ordinal(0x000a) == 4, // TLS_RSA_WITH_3DES_EDE_CBC_SHA
        cipher_ordinal(0x0016) == 5, // TLS_DHE_RSA_WITH_3DES_EDE_CBC_SHA
        cipher_ordinal(0x002f) == 6, // TLS_RSA_WITH_AES_128_CBC_SHA
        cipher_ordinal(0x0033) == 7, // TLS_DHE_RSA_WITH_AES_128_CBC_SHA
        cipher_ordinal(0x0035) == 8, // TLS_RSA_WITH_AES_256_CBC_SHA
        cipher_ordinal(0x0039) == 9, // TLS_DHE_RSA_WITH_AES_256_CBC_SHA
        cipher_ordinal(0x003c) == 10, // TLS_RSA_WITH_AES_128_CBC_SHA256
        cipher_ordinal(0x003d) == 11, // TLS_RSA_WITH_AES_256_CBC_SHA256
        cipher_ordinal(0x0041) == 12, // TLS_RSA_WITH_CAMELLIA_128_CBC_SHA
        cipher_ordinal(0x0045) == 13, // TLS_DHE_RSA_WITH_CAMELLIA_128_CBC_SHA
        cipher_ordinal(0x0067) == 14, // TLS_DHE_RSA_WITH_AES_128_CBC_SHA256
        cipher_ordinal(0x006b) == 15, // TLS_DHE_RSA_WITH_AES_256_CBC_SHA256
        cipher_ordinal(0x0084) == 16, // TLS_RSA_WITH_CAMELLIA_256_CBC_SHA
        cipher_ordinal(0x0088) == 17, // TLS_DHE_RSA_WITH_CAMELLIA_256_CBC_SHA
        cipher_ordinal(0x009a) == 18, // TLS_DHE_RSA_WITH_SEED_CBC_SHA
        cipher_ordinal(0x009c) == 19, // TLS_RSA_WITH_AES_128_GCM_SHA256
        cipher_ordinal(0x009d) == 20, // TLS_RSA_WITH_AES_256_GCM_SHA384
        cipher_ordinal(0x009e) == 21, // TLS_DHE_RSA_WITH_AES_128_GCM_SHA256
        cipher_ordinal(0x009f) == 22, // TLS_DHE_RSA_WITH_AES_256_GCM_SHA384
        cipher_ordinal(0x00ba) == 23, // TLS_RSA_WITH_CAMELLIA_128_CBC_SHA256
        cipher_ordinal(0x00be) == 24, // TLS_DHE_RSA_WITH_CAMELLIA_128_CBC_SHA256
        cipher_ordinal(0x00c0) == 25, // TLS_RSA_WITH_CAMELLIA_256_CBC_SHA256
        cipher_ordinal(0x00c4) == 26, // TLS_DHE_RSA_WITH_CAMELLIA_256_CBC_SHA256
        cipher_ordinal(0xc007) == 27, // TLS_ECDHE_ECDSA_WITH_RC4_128_SHA
        cipher_ordinal(0xc008) == 28, // TLS_ECDHE_ECDSA_WITH_3DES_EDE_CBC_SHA
        cipher_ordinal(0xc009) == 29, // TLS_ECDHE_ECDSA_WITH_AES_128_CBC_SHA
        cipher_ordinal(0xc00a) == 30, // TLS_ECDHE_ECDSA_WITH_AES_256_CBC_SHA
        cipher_ordinal(0xc011) == 31, // TLS_ECDHE_RSA_WITH_RC4_128_SHA
        cipher_ordinal(0xc012) == 32, // TLS_ECDHE_RSA_WITH_3DES_EDE_CBC_SHA
        cipher_ordinal(0xc013) == 33, // TLS_ECDHE_RSA_WITH_AES_128_CBC_SHA
        cipher_ordinal(0xc014) == 34, // TLS_ECDHE_RSA_WITH_AES_256_CBC_SHA
        cipher_ordinal(0xc023) == 35, // TLS_ECDHE_ECDSA_WITH_AES_128_CBC_SHA256
        cipher_ordinal(0xc024) == 36, // TLS_ECDHE_ECDSA_WITH_AES_256_CBC_SHA384
        cipher_ordinal(0xc027) == 37, // TLS_ECDHE_RSA_WITH_AES_128_CBC_SHA256
        cipher_ordinal(0xc028) == 38, // TLS_ECDHE_RSA_WITH_AES_256_CBC_SHA384
        cipher_ordinal(0xc02b) == 39, // TLS_ECDHE_ECDSA_WITH_AES_128_GCM_SHA256
        cipher_ordinal(0xc02c) == 40, // TLS_ECDHE_ECDSA_WITH_AES_256_GCM_SHA384
        cipher_ordinal(0xc02f) == 41, // TLS_ECDHE_RSA_WITH_AES_128_GCM_SHA256
        cipher_ordinal(0xc030) == 42, // TLS_ECDHE_RSA_WITH_AES_256_GCM_SHA384
        cipher_ordinal(0xc060) == 43, // TLS_ECDHE_RSA_WITH_ARIA_128_GCM_SHA256
        cipher_ordinal(0xc061) == 44, // TLS_ECDHE_RSA_WITH_ARIA_256_GCM_SHA384
        cipher_ordinal(0xc072) == 45, // TLS_ECDHE_ECDSA_WITH_CAMELLIA_128_CBC_SHA256
        cipher_ordinal(0xc073) == 46, // TLS_ECDHE_ECDSA_WITH_CAMELLIA_256_CBC_SHA384
        cipher_ordinal(0xc076) == 47, // TLS_ECDHE_RSA_WITH_CAMELLIA_128_CBC_SHA256
        cipher_ordinal(0xc077) == 48, // TLS_ECDHE_RSA_WITH_CAMELLIA_256_CBC_SHA384
        cipher_ordinal(0xc09c) == 49, // TLS_RSA_WITH_AES_128_CCM
        cipher_ordinal(0xc09d) == 50, // TLS_RSA_WITH_AES_256_CCM
        cipher_ordinal(0xc09e) == 51, // TLS_DHE_RSA_WITH_AES_128_CCM
        cipher_ordinal(0xc09f) == 52, // TLS_DHE_RSA_WITH_AES_256_CCM
        cipher_ordinal(0xc0a0) == 53, // TLS_RSA_WITH_AES_128_CCM_8
        cipher_ordinal(0xc0a1) == 54, // TLS_RSA_WITH_AES_256_CCM_8
        cipher_ordinal(0xc0a2) == 55, // TLS_DHE_RSA_WITH_AES_128_CCM_8
        cipher_ordinal(0xc0a3) == 56, // TLS_DHE_RSA_WITH_AES_256_CCM_8
        cipher_ordinal(0xc0ac) == 57, // TLS_ECDHE_ECDSA_WITH_AES_128_CCM
        cipher_ordinal(0xc0ad) == 58, // TLS_ECDHE_ECDSA_WITH_AES_256_CCM
        cipher_ordinal(0xc0ae) == 59, // TLS_ECDHE_ECDSA_WITH_AES_128_CCM_8
        cipher_ordinal(0xc0af) == 60, // TLS_ECDHE_ECDSA_WITH_AES_256_CCM_8
        cipher_ordinal(0xcc13) == 61, // OLD_TLS_ECDHE_RSA_WITH_CHACHA20_POLY1305_SHA256
        cipher_ordinal(0xcc14) == 62, // OLD_TLS_ECDHE_ECDSA_WITH_CHACHA20_POLY1305_SHA256
        cipher_ordinal(0xcca8) == 63, // TLS_ECDHE_RSA_WITH_CHACHA20_POLY1305_SHA256
        cipher_ordinal(0xcca9) == 64, // TLS_ECDHE_ECDSA_WITH_CHACHA20_POLY1305_SHA256
        cipher_ordinal(0x1301) == 65, // TLS_AES_128_GCM_SHA256
        cipher_ordinal(0x1302) == 66, // TLS_AES_256_GCM_SHA384
        cipher_ordinal(0x1303) == 67, // TLS_CHACHA20_POLY1305_SHA256
        cipher_ordinal(0x1304) == 68, // TLS_AES_128_CCM_SHA256
        cipher_ordinal(0x1305) == 69, // TLS_AES_128_CCM_8_SHA256
{
    lemma_cipher_ordinal_at(0);
    lemma_cipher_ordinal_at(1);
    lemma_cipher_ordinal_at(2);
    lemma_cipher_ordinal_at(3);
    lemma_cipher_ordinal_at(4);
    lemma_cipher_ordinal_at(5);
    lemma_cipher_ordinal_at(6);
    lemma_cipher_ordinal_at(7);
    lemma_cipher_ordinal_at(8);
    lemma_cipher_ordinal_at(9);
    lemma_cipher_ordinal_at(10);
    lemma_cipher_ordinal_at(11);
    lemma_cipher_ordinal_at(12);
    lemma_cipher_ordinal_at(13);
    lemma_cipher_ordinal_at(14);
    lemma_cipher_ordinal_at(15);
    lemma_cipher_ordinal_at(16);
    lemma_cipher_ordinal_at(17);
    lemma_cipher_ordinal_at(18);
    lemma_cipher_ordinal_at(19);
    lemma_cipher_ordinal_at(20);
    lemma_cipher_ordinal_at(21);
    lemma_cipher_ordinal_at(22);
    lemma_cipher_ordinal_at(23);
    lemma_cipher_ordinal_at(24);
    lemma_cipher_ordinal_at(25);
    lemma_cipher_ordinal_at(26);
    lemma_cipher_ordinal_at(27);
    lemma_cipher_ordinal_at(28);
    lemma_cipher_ordinal_at(29);
    lemma_cipher_ordinal_at(30);
    lemma_cipher_ordinal_at(31);
    lemma_cipher_ordinal_at(32);
    lemma_cipher_ordinal_at(33);
    lemma_cipher_ordinal_at(34);
    lemma_cipher_ordinal_at(35);
    lemma_cipher_ordinal_at(36);
    lemma_cipher_ordinal_at(37);
    lemma_cipher_ordinal_at(38);
    lemma_cipher_ordinal_at(39);
    lemma_cipher_ordinal_at(40);
    lemma_cipher_ordinal_at(41);
    lemma_cipher_ordinal_at(42);
    lemma_cipher_ordinal_at(43);
    lemma_cipher_ordinal_at(44);
    lemma_cipher_ordinal_at(45);
    lemma_cipher_ordinal_at(46);
    lemma_cipher_ordinal_at(47);
    lemma_cipher_ordinal_at(48);
    lemma_cipher_ordinal_at(49);
    lemma_cipher_ordinal_at(50);
    lemma_cipher_ordinal_at(51);
    lemma_cipher_ordinal_at(52);
    lemma_cipher_ordinal_at(53);
    lemma_cipher_ordinal_at(54);
    lemma_cipher_ordinal_at(55);
    lemma_cipher_ordinal_at(56);
    lemma_cipher_ordinal_at(57);
    lemma_cipher_ordinal_at(58);
    lemma_cipher_ordinal_at(59);
    lemma_cipher_ordinal_at(60);
    lemma_cipher_ordinal_at(61);
    lemma_cipher_ordinal_at(62);
    lemma_cipher_ordinal_at(63);
    lemma_cipher_ordinal_at(64);
    lemma_cipher_ordinal_at(65);
    lemma_cipher_ordinal_at(66);
    lemma_cipher_ordinal_at(67);
    lemma_cipher_ordinal_at(68);
}

/// A suite outside JARM's cipher order is numbered 70, after all of it.
pub proof fn law_unlisted_cipher_numbered_last(c: u16)
    requires
        forall|i: int| 0 <= i < jarm_cipher_order().len() ==> jarm_cipher_order()[i] != c,
    ensures
        cipher_ordinal(c) == 70,
{
    assert(jarm_cipher_order().len() == 69);
}

/// The JARM letter of a version byte: `a` to `f` for bytes 0 to 5, else `0`.
pub open spec fn version_char(b: u8) -> u8 {
    if b < 6 {
        (97 + b) as u8
    } else {
        48u8
    }
}

/// The three characters an answer contributes to the fingerprint's head:
/// `000` for none, else its cipher ordinal in two hex digits and its
/// version letter.
pub open spec fn answer_head(a: Option<JarmAnswer>) -> Seq<u8> {
    match a {
        None => seq![48u8, 48u8, 48u8],
        Some(x) => hex_lower(seq![cipher_ordinal(x.cipher_suite) as u8]) + seq![
            version_char(x.version_byte),
        ],
    }
}

/// The text an answer contributes to the hashed part: its ALPN protocol,
/// then its extension types in four hex digits each, joined with `-`.
pub open spec fn answer_tail(a: Option<JarmAnswer>) -> Seq<u8> {
    match a {
        None => Seq::empty(),
        Some(x) => x.alpn + dash_join(
            x.extension_types.map_values(|t: u16| hex_lower(be16(t as int))),
        ),
    }
}

/// The heads of a list of answers, one after another.
pub open spec fn jarm_heads(answers: Seq<Option<JarmAnswer>>) -> Seq<u8>
    decreases answers.len(),
{
    if answers.len() == 0 {
        Seq::empty()
    } else {
        jarm_heads(answers.drop_last()) + answer_head(answers.last())
    }
}

/// The tails of a list of answers, one after another.
pub open spec fn jarm_tails(answers: Seq<Option<JarmAnswer>>) -> Seq<u8>
    decreases answers.len(),
{
    if answers.len() == 0 {
        Seq::empty()
    } else {
        jarm_tails(answers.drop_last()) + answer_tail(answers.last())
    }
}

/// Some probe was answered.
pub open spec fn any_answer(answers: Seq<Option<JarmAnswer>>) -> bool {
    exists|i: int| 0 <= i < answers.len() && answers[i] is Some
}

/// Sixty-two zero characters.
pub open spec fn jarm_zeros() -> Seq<u8> {
    Seq::new(62, |i: int| 48u8)
}

/// The fingerprint of a set of answers given the digest of their tails:
/// 62 zeros if no probe was answered, else the heads followed by the digest
/// in lowercase hex, cut to 62 characters.
pub open spec fn jarm_text(answers: Seq<Option<JarmAnswer>>, digest: Seq<u8>) -> Seq<u8> {
    if !any_answer(answers) {
        jarm_zeros()
    } else {
        (jarm_heads(answers) + hex_lower(digest)).take(62)
    }
}

/// The JARM fingerprint of a list of responses, the tails hashed with SHA-256.
pub open spec fn jarm_value(hellos: Seq<Option<ServerHelloModel>>) -> Seq<u8> {
    let answers = jarm_answers(hellos);
    jarm_text(answers, sha256_of(jarm_tails(answers)))
}

/// A lowercase hexadecimal digit.
pub open spec fn is_lower_hex(b: u8) -> bool {
    (48 <= b <= 57) || (97 <= b <= 102)
}

/// A lowercase hexadecimal digit character: `0` to `9` or `a` to `f`.
pub open spec fn is_lower_hex_char(c: char) -> bool {
    (48 <= c as u32 <= 57) || (97 <= c as u32 <= 102)
}

/// Lowercase hexadecimal digits.
pub open spec fn all_lower_hex(s: Seq<u8>) -> bool {
    forall|i: int| 0 <= i < s.len() ==> #[trigger] is_lower_hex(s[i])
}

/// The heads take three hex characters per answer.
proof fn lemma_heads(answers: Seq<Option<JarmAnswer>>)
    ensures
        jarm_heads(answers).len() == 3 * answers.len(),
        all_lower_hex(jarm_heads(answers)),
    decreases answers.len(),
{
    if answers.len() > 0 {
        lemma_heads(answers.drop_last());
        let a = jarm_heads(answers.drop_last());
        let b = answer_head(answers.last());
        assert(all_lower_hex(b));
        assert forall|i: int| 0 <= i < (a + b).len() implies #[trigger] is_lower_hex((a + b)[i]) by {
            if i < a.len() {
            } else {
                assert((a + b)[i] == b[i - a.len()]);
            }
        }
    }
}

/// The fingerprint of ten answers, whatever digest of 32 bytes completes it,
/// is 62 lowercase hexadecimal digits.
pub proof fn law_jarm_text_is_62_hex_digits(answers: Seq<Option<JarmAnswer>>, digest: Seq<u8>)
    requires
        answers.len() == 10,
        digest.len() == 32,
    ensures
        jarm_text(answers, digest).len() == 62,
        all_lower_hex(jarm_text(answers, digest)),
{
    lemma_heads(answers);
    if any_answer(answers) {
        let a = jarm_heads(answers);
        let b = hex_lower(digest);
        assert forall|i: int| 0 <= i < 62 implies #[trigger] is_lower_hex((a + b).take(62)[i]) by {
            if i < a.len() {
            } else {
                assert((a + b)[i] == b[i - a.len()]);
            }
        }
    }
}

/// The characters of lowercase hexadecimal digits are lowercase hexadecimal
/// digit characters.
proof fn lemma_hex_chars(s: Seq<u8>)
    requires
        all_lower_hex(s),
    ensures
        forall|i: int| 0 <= i < s.len() ==> #[trigger] is_lower_hex_char(ascii_chars(s)[i]),
{
    assert forall|i: int| 0 <= i < s.len() implies #[trigger] is_lower_hex_char(
        ascii_chars(s)[i],
    ) by {
        assert(is_lower_hex(s[i]));
        assert(ascii_chars(s)[i] == s[i] as char);
    }
}

/// The heads of a list of answers hold the head of answer `i` at
/// characters `3 i` to `3 i + 2`.
proof fn lemma_heads_layout(answers: Seq<Option<JarmAnswer>>, i: int)
    requires
        0 <= i < answers.len(),
    ensures
        jarm_heads(answers).len() == 3 * answers.len(),
        jarm_heads(answers).subrange(3 * i, 3 * i + 3) == answer_head(answers[i]),
    decreases answers.len(),
{
    lemma_heads(answers);
    lemma_heads(answers.drop_last());
    let a = jarm_heads(answers.drop_last());
    let b = answer_head(answers.last());
    if i < answers.len() - 1 {
        lemma_heads_layout(answers.drop_last(), i);
        assert((a + b).subrange(3 * i, 3 * i + 3) =~= a.subrange(3 * i, 3 * i + 3));
    } else {
        assert((a + b).subrange(3 * i, 3 * i + 3) =~= b);
    }
}

/// Where the parts of a fingerprint stand: when some probe was answered,
/// characters `3 i` to `3 i + 2` are the cipher number in two hex digits and
/// the version letter of answer `i` (`000` for no answer), and the last 32
/// characters are the first 16 bytes of the digest in lowercase hex.
pub proof fn law_jarm_text_layout(answers: Seq<Option<JarmAnswer>>, digest: Seq<u8>, i: int)
    requires
        answers.len() == 10,
        digest.len() == 32,
        any_answer(answers),
        0 <= i < 10,
    ensures
        jarm_text(answers, digest).subrange(3 * i, 3 * i + 3) == match answers[i] {
            None => seq![48u8, 48u8, 48u8],
            Some(x) => seq![
                hex_digit(cipher_ordinal(x.cipher_suite) as int / 16),
                hex_digit(cipher_ordinal(x.cipher_suite) as int % 16),
                version_char(x.version_byte),
            ],
        },
        jarm_text(answers, digest).subrange(30, 62) == hex_lower(digest.subrange(0, 16)),
{
    lemma_heads_layout(answers, i);
    let h = jarm_heads(answers);
    let t = jarm_text(answers, digest);
    assert(t.subrange(3 * i, 3 * i + 3) =~= h.subrange(3 * i, 3 * i + 3));
    if let Some(x) = answers[i] {
        assert(answer_head(answers[i]) =~= seq![
            hex_digit(cipher_ordinal(x.cipher_suite) as u8 as int / 16),
            hex_digit(cipher_ordinal(x.cipher_suite) as u8 as int % 16),
            version_char(x.version_byte),
        ]);
        lemma_cipher_ordinal_range(x.cipher_suite);
    }
    let a = t.subrange(30, 62);
    let b = hex_lower(digest.subrange(0, 16));
    assert forall|k: int| 0 <= k < 32 implies a[k] == b[k] by {
        assert(digest.subrange(0, 16)[k / 2] == digest[k / 2]);
    }
    assert(a =~= b);
}

/// Every cipher number lies between 1 and 70.
proof fn lemma_cipher_ordinal_range(c: u16)
    ensures
        1 <= cipher_ordinal(c) <= 70,
{
    let s = jarm_cipher_order();
    assert(s.len() == 69);
    if exists|i: int| is_first_index(s, c, i) {
        let k = choose|i: int| is_first_index(s, c, i);
        assert(0 <= k < 69);
    }
}

/// The JARM letters of version bytes: `a` to `f` for bytes 0 to 5, so
/// SSL 3.0 to TLS 1.3 (`0x0300` to `0x0304`) give `a` to `e`; any other
/// byte gives `0`.
pub proof fn law_jarm_version_letters(b: u8)
    ensures
        version_char(0) == 97 && version_char(1) == 98 && version_char(2) == 99,
        version_char(3) == 100 && version_char(4) == 101 && version_char(5) == 102,
        b >= 6 ==> version_char(b) == 48,
{
}

/// When every response is absent, the fingerprint is 62 zeros.
pub proof fn law_jarm_all_absent_is_zeros(hellos: Seq<Option<ServerHelloModel>>)
    requires
        forall|i: int| 0 <= i < hellos.len() ==> #[trigger] hellos[i] is None,
    ensures
        jarm_value(hellos) == jarm_zeros(),
{
    let answers = jarm_answers(hellos);
    assert(!any_answer(answers));
}

/// Responses after the tenth do not change the fingerprint.
pub proof fn law_jarm_ignores_entries_after_ten(
    hellos: Seq<Option<ServerHelloModel>>,
    extra: Seq<Option<ServerHelloModel>>,
)
    requires
        hellos.len() >= 10,
    ensures
        jarm_value(hellos + extra) == jarm_value(hellos),
{
    assert(jarm_answers(hellos + extra) =~= jarm_answers(hellos));
}

/// Missing responses at the end count as absent ones.
pub proof fn law_jarm_missing_entries_are_absent(hellos: Seq<Option<ServerHelloModel>>, n: nat)
    ensures
        jarm_value(hellos + Seq::new(n, |i: int| None::<ServerHelloModel>)) == jarm_value(hellos),
{
    assert(jarm_answers(hellos + Seq::new(n, |i: int| None::<ServerHelloModel>)) =~= jarm_answers(
        hellos,
    ));
}

/// What JARM reads from one `ServerHello`.
struct JarmServerHello {
    cipher_suite: TlsCipherSuite,
    legacy_version_byte: u8,
    alpn: Vec<u8>,
    extension_types: Vec<TlsExtensionType>,
}

impl View for JarmServerHello {
    type V = JarmAnswer;

    closed spec fn view(&self) -> JarmAnswer {
        JarmAnswer {
            cipher_suite: self.cipher_suite.0,
            version_byte: self.legacy_version_byte,
            alpn: self.alpn@,
            extension_types: self.extension_types@.map_values(|t: TlsExtensionType| t.0),
        }
    }
}

impl JarmServerHello {
    /// Reads what JARM needs from `value`; fails if its ALPN extension does
    /// not parse.
    fn try_from(value: &TlsServerHello) -> (r: Result<Self, Error>)
        ensures
            match r {
                Ok(a) => jarm_answer(Some(value@)) == Some(a@),
                Err(_) => jarm_answer(Some(value@)) is None,
            },
    {
        let alpn = match value.alpn_protocol()? {
            Some(protocol) => protocol.as_bytes_vec(),
            None => Vec::new(),
        };
        let version_bytes = value.legacy_version().to_be_bytes();
        let extension_types = value.extension_types();
        let r = Self {
            cipher_suite: *value.cipher_suite(),
            legacy_version_byte: version_bytes[1],
            alpn,
            extension_types,
        };
        assert(r@.extension_types =~= value@.extensions.map_values(|e: ExtensionModel| e.ext_type));
        assert(r@.alpn =~= jarm_answer(Some(value@))->Some_0.alpn);
        Ok(r)
    }
}

/// The JARM number of `c`.
fn cipher_ordinal_of(c: TlsCipherSuite) -> (r: u8)
    ensures
        r == cipher_ordinal(c.0),
{
    let order = jarm_cipher_order_list();
    let ghost s = jarm_cipher_order();
    assert(order@.len() == s.len());
    assert(s.len() == 69);
    let mut i: usize = 0;
    while i < order.len()
        invariant
            i <= order@.len(),
            suite_values(order@) == s,
            order@.len() == 69,
            s == jarm_cipher_order(),
            forall|j: int| 0 <= j < i ==> s[j] != c.0,
        decreases order@.len() - i,
    {
        if order[i].as_u16() == c.as_u16() {
            proof {
                assert(is_first_index(s, c.0, i as int));
                let k = choose|k: int| is_first_index(s, c.0, k);
                assert(k == i) by {
                    if k < i {
                        assert(s[k] != c.0);
                    } else if k > i {
                        assert(s[i as int] != c.0);
                    }
                }
            }
            return (i + 1) as u8;
        }
        i = i + 1;
    }
    assert(!exists|k: int| is_first_index(s, c.0, k));
    (order.len() + 1) as u8
}

/// Appends the types in four hex digits each, joined with `-`, to `out`.
fn push_hex_types_joined(out: &mut Vec<u8>, types: &[TlsExtensionType])
    ensures
        final(out)@ == old(out)@ + dash_join(
            types@.map_values(|t: TlsExtensionType| t.0).map_values(
                |t: u16| hex_lower(be16(t as int)),
            ),
        ),
{
    let ghost items = types@.map_values(|t: TlsExtensionType| t.0).map_values(
        |t: u16| hex_lower(be16(t as int)),
    );
    let ghost start = out@;
    let mut i: usize = 0;
    assert(items.take(0) =~= Seq::<Seq<u8>>::empty());
    while i < types.len()
        invariant
            i <= types@.len(),
            items == types@.map_values(|t: TlsExtensionType| t.0).map_values(
                |t: u16| hex_lower(be16(t as int)),
            ),
            out@ == start + dash_join(items.take(i as int)),
        decreases types@.len() - i,
    {
        if i > 0 {
            out.push(45u8);
        }
        let bytes = types[i].to_be_bytes();
        push_hex_byte(out, bytes[0]);
        push_hex_byte(out, bytes[1]);
        proof {
            let t = items.take(i + 1);
            assert(t.drop_last() =~= items.take(i as int));
            assert(t.last() =~= seq![
                hex_digit(bytes[0] as int / 16),
                hex_digit(bytes[0] as int % 16),
                hex_digit(bytes[1] as int / 16),
                hex_digit(bytes[1] as int % 16),
            ]);
            assert(out@ =~= start + dash_join(t));
        }
        i = i + 1;
    }
    assert(items.take(i as int) =~= items);
}

/// The heads and tails of the answers to the ten probes, and whether any
/// probe was answered.
fn jarm_parts(server_hellos: &[Option<TlsServerHello>]) -> (r: (Vec<u8>, Vec<u8>, bool))
    ensures
        r.0@ == jarm_heads(jarm_answers(hello_models(server_hellos@))),
        r.1@ == jarm_tails(jarm_answers(hello_models(server_hellos@))),
        r.2 == any_answer(jarm_answers(hello_models(server_hellos@))),
{
    let ghost answers = jarm_answers(hello_models(server_hellos@));
    let mut received_server_hello = false;
    let mut cipher_and_version: Vec<u8> = Vec::new();
    let mut alpn_and_extensions: Vec<u8> = Vec::new();
    let mut probe_index: usize = 0;
    assert(answers.take(0) =~= Seq::<Option<JarmAnswer>>::empty());
    while probe_index < JARM_PROBE_COUNT
        invariant
            probe_index <= 10,
            answers == jarm_answers(hello_models(server_hellos@)),
            cipher_and_version@ == jarm_heads(answers.take(probe_index as int)),
            alpn_and_extensions@ == jarm_tails(answers.take(probe_index as int)),
            received_server_hello == exists|j: int|
                0 <= j < probe_index && (#[trigger] answers[j]) is Some,
        decreases 10 - probe_index,
    {
        let ghost k = probe_index as int;
        proof {
            let t = answers.take(k + 1);
            assert(t.drop_last() =~= answers.take(k));
            assert(t.last() == answers[k]);
        }
        let server_hello = if probe_index < server_hellos.len() {
            match &server_hellos[probe_index] {
                Some(response) => match JarmServerHello::try_from(response) {
                    Ok(a) => Some(a),
                    Err(_) => None,
                },
                None => None,
            }
        } else {
            None
        };
        match server_hello {
            None => {
                cipher_and_version.push(48u8);
                cipher_and_version.push(48u8);
                cipher_and_version.push(48u8);
                assert(answers[k] is None);
                assert(cipher_and_version@ =~= jarm_heads(answers.take(k + 1)));
                assert(alpn_and_extensions@ =~= jarm_tails(answers.take(k + 1)));
            },
            Some(server_hello) => {
                received_server_hello = true;
                assert(answers[k] == Some(server_hello@));
                let cipher_ordinal = cipher_ordinal_of(server_hello.cipher_suite);
                let version = if server_hello.legacy_version_byte < 6 {
                    97u8 + server_hello.legacy_version_byte
                } else {
                    48u8
                };
                let ghost heads = cipher_and_version@;
                let ghost tails = alpn_and_extensions@;
                push_hex_byte(&mut cipher_and_version, cipher_ordinal);
                cipher_and_version.push(version);
                alpn_and_extensions.extend_from_slice(server_hello.alpn.as_slice());
                push_hex_types_joined(
                    &mut alpn_and_extensions,
                    server_hello.extension_types.as_slice(),
                );
                proof {
                    assert(hex_lower(seq![cipher_ordinal]) =~= seq![
                        hex_digit(cipher_ordinal as int / 16),
                        hex_digit(cipher_ordinal as int % 16),
                    ]);
                    assert(cipher_and_version@ =~= heads + answer_head(answers[k]));
                    assert(alpn_and_extensions@ =~= tails + answer_tail(answers[k]));
                }
            },
        }
        probe_index = probe_index + 1;
    }
    assert(answers.take(10) =~= answers);
    (cipher_and_version, alpn_and_extensions, received_server_hello)
}

/// The fingerprint text from the heads, whether any probe was answered, and
/// the digest of the tails.
fn jarm_text_from(heads: &[u8], received: bool, digest: &[u8]) -> (r: String)
    requires
        heads@.len() == 30,
        all_lower_hex(heads@),
        digest@.len() >= 16,
    ensures
        r@ == ascii_chars(
            if received {
                (heads@ + hex_lower(digest@)).take(62)
            } else {
                jarm_zeros()
            },
        ),
{
    let mut out: Vec<u8> = Vec::new();
    if !received {
        let mut i: usize = 0;
        while i < 62
            invariant
                i <= 62,
                out@ =~= jarm_zeros().take(i as int),
            decreases 62 - i,
        {
            out.push(48u8);
            i = i + 1;
        }
        assert(jarm_zeros().take(62) =~= jarm_zeros());
        return ascii_string(out.as_slice());
    }
    out.extend_from_slice(heads);
    let mut i: usize = 0;
    while i < 16
        invariant
            i <= 16,
            digest@.len() >= 16,
            out@ =~= heads@ + hex_lower(digest@.take(i as int)),
        decreases 16 - i,
    {
        push_hex_byte(&mut out, digest[i]);
        proof {
            let a = hex_lower(digest@.take(i + 1));
            let byte = digest@[i as int] as int;
            let b = hex_lower(digest@.take(i as int)) + seq![hex_digit(byte / 16), hex_digit(byte % 16)];
            assert forall|k: int| 0 <= k < a.len() implies a[k] == b[k] by {
                if k < 2 * i {
                    assert(digest@.take(i + 1)[k / 2] == digest@.take(i as int)[k / 2]);
                } else {
                    assert(k / 2 == i);
                }
            }
        }
        i = i + 1;
    }
    proof {
        let full = heads@ + hex_lower(digest@);
        assert forall|k: int| 0 <= k < 62 implies full.take(62)[k] == out@[k] by {
            if k >= 30 {
                assert(digest@.take(16)[(k - 30) / 2] == digest@[(k - 30) / 2]);
            }
        }
        assert(full.take(62) =~= out@);
        assert forall|k: int| 0 <= k < out@.len() implies out@[k] < 128 by {
            if k < 30 {
                assert(is_lower_hex(heads@[k]));
            }
        }
    }
    ascii_string(out.as_slice())
}

/// Produces a JARM fingerprint from probe responses.
///
/// JARM actively fingerprints a TLS server by sending ten specially ordered
/// `ClientHello` messages. The selected cipher suite, legacy TLS version,
/// ALPN protocol, and extension types from each response are combined into a
/// 62-character fingerprint.
///
/// Responses must be supplied in the same order as the records returned by
/// [`generate_jarm_probes`]. A missing response is represented by `None`.
/// Missing entries at the end of the slice are also treated as absent
/// responses; entries beyond the first ten are ignored.
///
/// The returned value is always 62 lowercase ASCII characters. If every
/// response is absent, it consists of 62 zeroes.
pub fn jarm_fingerprint(server_hellos: &[Option<TlsServerHello>]) -> (r: String)
    ensures
        r@ == ascii_chars(jarm_value(hello_models(server_hellos@))),
        r@.len() == 62,
        all_lower_hex(jarm_value(hello_models(server_hellos@))),
        forall|i: int| 0 <= i < r@.len() ==> #[trigger] is_lower_hex_char(r@[i]),
{
    let (heads, tails, received) = jarm_parts(server_hellos);
    let digest = sha256_digest(tails.as_slice());
    proof {
        lemma_heads(jarm_answers(hello_models(server_hellos@)));
        law_jarm_text_is_62_hex_digits(jarm_answers(hello_models(server_hellos@)), digest@);
        lemma_hex_chars(jarm_value(hello_models(server_hellos@)));
    }
    jarm_text_from(heads.as_slice(), received, digest.as_slice())
}

/// Produces the JARM fingerprint of probe responses as
/// [`jarm_fingerprint`] does, with `digest` standing for the SHA-256 digest
/// of the responses' ALPN protocols and extension types.
pub fn jarm_fingerprint_from_digest(server_hellos: &[Option<TlsServerHello>], digest: &[u8]) -> (r:
    String)
    requires
        digest@.len() == 32,
    ensures
        r@ == ascii_chars(jarm_text(jarm_answers(hello_models(server_hellos@)), digest@)),
        r@.len() == 62,
        forall|i: int| 0 <= i < r@.len() ==> #[trigger] is_lower_hex_char(r@[i]),
{
    let (heads, _tails, received) = jarm_parts(server_hellos);
    proof {
        lemma_heads(jarm_answers(hello_models(server_hellos@)));
        law_jarm_text_is_62_hex_digits(jarm_answers(hello_models(server_hellos@)), digest@);
        lemma_hex_chars(jarm_text(jarm_answers(hello_models(server_hellos@)), digest@));
    }
    jarm_text_from(heads.as_slice(), received, digest)
}

} // verus!
