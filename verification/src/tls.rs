//! TLS wire types: records, handshake messages, hellos and the values they carry.
use vstd::prelude::*;

mod client_hello;
mod handshake;
mod reader;
mod record;
mod server_hello;

pub use client_hello::{
    client_hello_valid, encode_client_hello, law_client_hello_reencode,
    law_client_hello_round_trip, new_client_hello,
    new_client_hello_error, parse_client_hello, suite_values, ClientHelloModel, TlsClientHello,
};
pub use handshake::{
    encode_handshake, law_handshake_round_trip, parse_handshake, HandshakeModel, TlsHandshake,
};
pub use reader::TlsReader;
pub use record::{
    encode_record, law_record_ignores_following_bytes, law_record_round_trip, parse_record,
    RecordModel, TlsRecord,
};
pub use server_hello::{
    decoder_push, decoder_push_all, decoder_step, feed_records, find_extension, handshake_bytes,
    law_decoder_reassembles_server_hello, law_decoder_reassembles_split_server_hello,
    law_decoder_step_reads_message_before_following_bytes, law_selected_alpn_names_the_protocol,
    law_server_hello_negotiated_version,
    law_feed_records_in_pieces, parse_alpn, parse_server_extensions, parse_server_hello,
    selected_alpn, server_hello_valid, ServerHelloDecoder, ServerHelloModel, TlsServerHello,
};

use crate::error::{eof, overflow, Error};
use crate::utils::random_byte;
use crate::wire::{be16, u16_at, u16_to_be};

verus! {

/// One TLSPlaintext record can contain at most 2^14 bytes.
pub const MAX_TLS_PLAINTEXT_LEN: usize = 16384;

/// Length of the header in front of a handshake message body.
pub const HANDSHAKE_HEADER_LEN: usize = 4;

/// Length of the header in front of a record payload.
pub const TLS_RECORD_HEADER_LEN: usize = 5;

/// Available versions of TLS
#[derive(Debug, Clone, Copy, PartialEq, Eq, Hash, Structural)]
pub struct TlsVersion(u16);

impl View for TlsVersion {
    type V = u16;

    closed spec fn view(&self) -> u16 {
        self.0
    }
}

impl TlsVersion {
    #[allow(non_snake_case)]
    pub fn SSL20() -> (r: Self)
        ensures
            r@ == 0x0002,
    {
        Self(0x0002)
    }

    #[allow(non_snake_case)]
    pub fn SSL30() -> (r: Self)
        ensures
            r@ == 0x0300,
    {
        Self(0x0300)
    }

    #[allow(non_snake_case)]
    pub fn TLS10() -> (r: Self)
        ensures
            r@ == 0x0301,
    {
        Self(0x0301)
    }

    #[allow(non_snake_case)]
    pub fn TLS11() -> (r: Self)
        ensures
            r@ == 0x0302,
    {
        Self(0x0302)
    }

    #[allow(non_snake_case)]
    pub fn TLS12() -> (r: Self)
        ensures
            r@ == 0x0303,
    {
        Self(0x0303)
    }

    #[allow(non_snake_case)]
    pub fn TLS13() -> (r: Self)
        ensures
            r@ == 0x0304,
    {
        Self(0x0304)
    }

    /// Creates a version from its 16-bit wire value.
    pub fn from_u16(value: u16) -> (r: Self)
        ensures
            r@ == value,
    {
        Self(value)
    }

    /// Returns the underlying 16-bit value.
    pub fn as_u16(self) -> (r: u16)
        ensures
            r == self@,
    {
        self.0
    }

    /// Returns the underlying value encoded as two bytes in network byte order.
    pub fn to_be_bytes(self) -> (r: [u8; 2])
        ensures
            r@ == be16(self@ as int),
    {
        u16_to_be(self.0)
    }

    /// Returns the legacy version used for this TLS version.
    ///
    /// For TLS 1.2 and earlier, the legacy version is the version itself.
    /// For TLS 1.3, the legacy version is TLS 1.2.
    pub fn legacy_version(self) -> (r: Self)
        ensures
            r@ == legacy_version_of(self@),
    {
        if self.0 == 0x0304 {
            Self::TLS12()
        } else {
            self
        }
    }
}

/// The version a hello carries in its legacy field for a protocol version:
/// TLS 1.3 is announced as TLS 1.2, every other version as itself.
pub open spec fn legacy_version_of(v: u16) -> u16 {
    if v == 0x0304 {
        0x0303
    } else {
        v
    }
}

/// True of the reserved GREASE code points `0x0a0a`, `0x1a1a`, ..., `0xfafa`:
/// both bytes are equal and their low nibble is `0xa`.
pub open spec fn is_grease_value(v: u16) -> bool {
    &&& v / 256 == v % 256
    &&& v % 16 == 10
}

/// The reserved GREASE code points, in increasing order.
pub open spec fn grease_values() -> Seq<u16> {
    Seq::new(16, |k: int| (0x0a0a + 0x1010 * k) as u16)
}

/// The GREASE code points are exactly `0x0a0a + 0x1010 * k` for `k` in `0..16`.
pub proof fn lemma_grease_values(v: u16)
    ensures
        is_grease_value(v) <==> grease_values().contains(v),
{
    if is_grease_value(v) {
        let k: int = (v % 256) as int / 16;
        assert(grease_values()[k] == v);
    }
    if grease_values().contains(v) {
        let k = choose|k: int| 0 <= k < 16 && grease_values()[k] == v;
        assert(v == 0x0a0a + 0x1010 * k);
    }
}

/// A reserved TLS GREASE code point.
///
/// GREASE values are used to detect implementations that incorrectly reject
/// unknown protocol identifiers.
#[derive(Debug, Clone, Copy, PartialEq, Eq, Hash, Structural)]
pub struct Grease(u16);

impl View for Grease {
    type V = u16;

    closed spec fn view(&self) -> u16 {
        self.0
    }
}

impl Grease {
    /// Returns a randomly selected GREASE value.
    ///
    /// The returned value is always one of the reserved GREASE code points:
    /// `[0x0a0a, 0x1a1a, 0x2a2a, 0x3a3a, 0x4a4a, 0x5a5a, 0x6a6a, 0x7a7a, 0x8a8a, 0x9a9a, 0xaaaa, 0xbaba, 0xcaca, 0xdada, 0xeaea, 0xfafa]`
    ///
    /// See: <https://datatracker.ietf.org/doc/html/draft-davidben-tls-grease-01#page-5>
    pub fn random() -> (r: Self)
        ensures
            is_grease_value(r@),
            grease_values().contains(r@),
    {
        Self::from_random_byte(random_byte())
    }

    /// Returns the GREASE code point that the random byte `b` selects: its
    /// low four bits pick one of the sixteen, `0x0a0a + 0x1010 * (b % 16)`.
    pub fn from_random_byte(b: u8) -> (r: Self)
        ensures
            r@ == 0x0a0a + 0x1010 * (b % 16),
            r@ == grease_values()[(b % 16) as int],
            is_grease_value(r@),
            grease_values().contains(r@),
    {
        let n = (b % 16) as u16;
        let byte = n * 16 + 10;
        let r = Self(byte * 256 + byte);
        proof {
            lemma_grease_values(r@);
        }
        r
    }

    /// Returns the GREASE code point `value`, or `None` if `value` is not one.
    pub fn new(value: u16) -> (r: Option<Self>)
        ensures
            match r {
                Some(g) => is_grease_value(value) && g@ == value,
                None => !is_grease_value(value),
            },
    {
        if Self::is_grease(value) {
            Some(Self(value))
        } else {
            None
        }
    }

    /// Returns `true` if `value` is one of the reserved GREASE code points.
    pub fn is_grease(value: u16) -> (b: bool)
        ensures
            b == is_grease_value(value),
    {
        value / 256 == value % 256 && value % 16 == 10
    }

    /// Returns the underlying 16-bit value.
    pub fn as_u16(self) -> (r: u16)
        ensures
            r == self@,
    {
        self.0
    }

    /// Returns the value encoded as two bytes in network byte order.
    pub fn to_be_bytes(self) -> (r: [u8; 2])
        ensures
            r@ == be16(self@ as int),
    {
        u16_to_be(self.0)
    }
}

/// The content type of a TLS record.
///
/// See: <https://www.iana.org/assignments/tls-parameters#tls-parameters-5>
#[derive(Debug, Clone, Copy, PartialEq, Eq, Hash, Structural)]
pub struct TlsContentType(pub u8);

impl View for TlsContentType {
    type V = u8;

    open spec fn view(&self) -> u8 {
        self.0
    }
}

impl TlsContentType {
    #[allow(non_snake_case)]
    pub fn HANDSHAKE() -> (r: Self)
        ensures
            r@ == 22,
    {
        Self(22)
    }

    /// Returns the underlying 8-bit value.
    pub fn as_u8(self) -> (r: u8)
        ensures
            r == self@,
    {
        self.0
    }
}

/// Handshake type of a TLS record
///
/// See: <https://www.iana.org/assignments/tls-parameters#tls-parameters-7>
#[derive(Debug, Clone, Copy, PartialEq, Eq, Hash, Structural)]
pub struct TlsHandshakeType(pub u8);

impl View for TlsHandshakeType {
    type V = u8;

    open spec fn view(&self) -> u8 {
        self.0
    }
}

impl TlsHandshakeType {
    #[allow(non_snake_case)]
    pub fn CLIENT_HELLO() -> (r: Self)
        ensures
            r@ == 1,
    {
        Self(1)
    }

    #[allow(non_snake_case)]
    pub fn SERVER_HELLO() -> (r: Self)
        ensures
            r@ == 2,
    {
        Self(2)
    }

    /// Returns the underlying 8-bit value.
    pub fn as_u8(self) -> (r: u8)
        ensures
            r == self@,
    {
        self.0
    }
}

/// A TLS cipher suite identifier.
///
/// Any 16-bit value can be represented, including unknown, reserved,
/// experimental, and GREASE values.
///
/// See: <https://www.iana.org/assignments/tls-parameters#tls-parameters-4>
#[derive(Debug, Clone, Copy, PartialEq, Eq, Hash, Structural)]
pub struct TlsCipherSuite(pub u16);

impl View for TlsCipherSuite {
    type V = u16;

    open spec fn view(&self) -> u16 {
        self.0
    }
}

impl TlsCipherSuite {
    // TLS 1.3
    #[allow(non_snake_case)]
    pub fn TLS_AES_128_GCM_SHA256() -> (r: Self)
        ensures
            r@ == 0x1301,
    {
        Self(0x1301)
    }

    #[allow(non_snake_case)]
    pub fn TLS_AES_256_GCM_SHA384() -> (r: Self)
        ensures
            r@ == 0x1302,
    {
        Self(0x1302)
    }

    #[allow(non_snake_case)]
    pub fn TLS_CHACHA20_POLY1305_SHA256() -> (r: Self)
        ensures
            r@ == 0x1303,
    {
        Self(0x1303)
    }

    #[allow(non_snake_case)]
    pub fn TLS_AES_128_CCM_SHA256() -> (r: Self)
        ensures
            r@ == 0x1304,
    {
        Self(0x1304)
    }

    #[allow(non_snake_case)]
    pub fn TLS_AES_128_CCM_8_SHA256() -> (r: Self)
        ensures
            r@ == 0x1305,
    {
        Self(0x1305)
    }

    // DHE-RSA
    #[allow(non_snake_case)]
    pub fn TLS_DHE_RSA_WITH_3DES_EDE_CBC_SHA() -> (r: Self)
        ensures
            r@ == 0x0016,
    {
        Self(0x0016)
    }

    #[allow(non_snake_case)]
    pub fn TLS_DHE_RSA_WITH_AES_128_CBC_SHA() -> (r: Self)
        ensures
            r@ == 0x0033,
    {
        Self(0x0033)
    }

    #[allow(non_snake_case)]
    pub fn TLS_DHE_RSA_WITH_AES_256_CBC_SHA() -> (r: Self)
        ensures
            r@ == 0x0039,
    {
        Self(0x0039)
    }

    #[allow(non_snake_case)]
    pub fn TLS_DHE_RSA_WITH_AES_128_CBC_SHA256() -> (r: Self)
        ensures
            r@ == 0x0067,
    {
        Self(0x0067)
    }

    #[allow(non_snake_case)]
    pub fn TLS_DHE_RSA_WITH_AES_256_CBC_SHA256() -> (r: Self)
        ensures
            r@ == 0x006b,
    {
        Self(0x006b)
    }

    #[allow(non_snake_case)]
    pub fn TLS_DHE_RSA_WITH_AES_128_GCM_SHA256() -> (r: Self)
        ensures
            r@ == 0x009e,
    {
        Self(0x009e)
    }

    #[allow(non_snake_case)]
    pub fn TLS_DHE_RSA_WITH_AES_256_GCM_SHA384() -> (r: Self)
        ensures
            r@ == 0x009f,
    {
        Self(0x009f)
    }

    #[allow(non_snake_case)]
    pub fn TLS_DHE_RSA_WITH_AES_128_CCM() -> (r: Self)
        ensures
            r@ == 0xc09e,
    {
        Self(0xc09e)
    }

    #[allow(non_snake_case)]
    pub fn TLS_DHE_RSA_WITH_AES_256_CCM() -> (r: Self)
        ensures
            r@ == 0xc09f,
    {
        Self(0xc09f)
    }

    #[allow(non_snake_case)]
    pub fn TLS_DHE_RSA_WITH_AES_128_CCM_8() -> (r: Self)
        ensures
            r@ == 0xc0a2,
    {
        Self(0xc0a2)
    }

    #[allow(non_snake_case)]
    pub fn TLS_DHE_RSA_WITH_AES_256_CCM_8() -> (r: Self)
        ensures
            r@ == 0xc0a3,
    {
        Self(0xc0a3)
    }

    #[allow(non_snake_case)]
    pub fn TLS_DHE_RSA_WITH_CAMELLIA_128_CBC_SHA() -> (r: Self)
        ensures
            r@ == 0x0045,
    {
        Self(0x0045)
    }

    #[allow(non_snake_case)]
    pub fn TLS_DHE_RSA_WITH_CAMELLIA_256_CBC_SHA() -> (r: Self)
        ensures
            r@ == 0x0088,
    {
        Self(0x0088)
    }

    #[allow(non_snake_case)]
    pub fn TLS_DHE_RSA_WITH_CAMELLIA_128_CBC_SHA256() -> (r: Self)
        ensures
            r@ == 0x00be,
    {
        Self(0x00be)
    }

    #[allow(non_snake_case)]
    pub fn TLS_DHE_RSA_WITH_CAMELLIA_256_CBC_SHA256() -> (r: Self)
        ensures
            r@ == 0x00c4,
    {
        Self(0x00c4)
    }

    #[allow(non_snake_case)]
    pub fn TLS_DHE_RSA_WITH_SEED_CBC_SHA() -> (r: Self)
        ensures
            r@ == 0x009a,
    {
        Self(0x009a)
    }

    // ECDHE-ECDSA
    #[allow(non_snake_case)]
    pub fn TLS_ECDHE_ECDSA_WITH_3DES_EDE_CBC_SHA() -> (r: Self)
        ensures
            r@ == 0xc008,
    {
        Self(0xc008)
    }

    #[allow(non_snake_case)]
    pub fn TLS_ECDHE_ECDSA_WITH_AES_128_CBC_SHA() -> (r: Self)
        ensures
            r@ == 0xc009,
    {
        Self(0xc009)
    }

    #[allow(non_snake_case)]
    pub fn TLS_ECDHE_ECDSA_WITH_AES_256_CBC_SHA() -> (r: Self)
        ensures
            r@ == 0xc00a,
    {
        Self(0xc00a)
    }

    #[allow(non_snake_case)]
    pub fn TLS_ECDHE_ECDSA_WITH_AES_128_CBC_SHA256() -> (r: Self)
        ensures
            r@ == 0xc023,
    {
        Self(0xc023)
    }

    #[allow(non_snake_case)]
    pub fn TLS_ECDHE_ECDSA_WITH_AES_256_CBC_SHA384() -> (r: Self)
        ensures
            r@ == 0xc024,
    {
        Self(0xc024)
    }

    #[allow(non_snake_case)]
    pub fn TLS_ECDHE_ECDSA_WITH_AES_128_GCM_SHA256() -> (r: Self)
        ensures
            r@ == 0xc02b,
    {
        Self(0xc02b)
    }

    #[allow(non_snake_case)]
    pub fn TLS_ECDHE_ECDSA_WITH_AES_256_GCM_SHA384() -> (r: Self)
        ensures
            r@ == 0xc02c,
    {
        Self(0xc02c)
    }

    #[allow(non_snake_case)]
    pub fn TLS_ECDHE_ECDSA_WITH_AES_128_CCM() -> (r: Self)
        ensures
            r@ == 0xc0ac,
    {
        Self(0xc0ac)
    }

    #[allow(non_snake_case)]
    pub fn TLS_ECDHE_ECDSA_WITH_AES_256_CCM() -> (r: Self)
        ensures
            r@ == 0xc0ad,
    {
        Self(0xc0ad)
    }

    #[allow(non_snake_case)]
    pub fn TLS_ECDHE_ECDSA_WITH_AES_128_CCM_8() -> (r: Self)
        ensures
            r@ == 0xc0ae,
    {
        Self(0xc0ae)
    }

    #[allow(non_snake_case)]
    pub fn TLS_ECDHE_ECDSA_WITH_AES_256_CCM_8() -> (r: Self)
        ensures
            r@ == 0xc0af,
    {
        Self(0xc0af)
    }

    #[allow(non_snake_case)]
    pub fn TLS_ECDHE_ECDSA_WITH_CAMELLIA_128_CBC_SHA256() -> (r: Self)
        ensures
            r@ == 0xc072,
    {
        Self(0xc072)
    }

    #[allow(non_snake_case)]
    pub fn TLS_ECDHE_ECDSA_WITH_CAMELLIA_256_CBC_SHA384() -> (r: Self)
        ensures
            r@ == 0xc073,
    {
        Self(0xc073)
    }

    #[allow(non_snake_case)]
    pub fn TLS_ECDHE_ECDSA_WITH_CHACHA20_POLY1305_SHA256() -> (r: Self)
        ensures
            r@ == 0xcca9,
    {
        Self(0xcca9)
    }

    #[allow(non_snake_case)]
    pub fn OLD_TLS_ECDHE_ECDSA_WITH_CHACHA20_POLY1305_SHA256() -> (r: Self)
        ensures
            r@ == 0xcc14,
    {
        Self(0xcc14)
    }

    #[allow(non_snake_case)]
    pub fn TLS_ECDHE_ECDSA_WITH_RC4_128_SHA() -> (r: Self)
        ensures
            r@ == 0xc007,
    {
        Self(0xc007)
    }

    // ECDHE-RSA
    #[allow(non_snake_case)]
    pub fn TLS_ECDHE_RSA_WITH_3DES_EDE_CBC_SHA() -> (r: Self)
        ensures
            r@ == 0xc012,
    {
        Self(0xc012)
    }

    #[allow(non_snake_case)]
    pub fn TLS_ECDHE_RSA_WITH_AES_128_CBC_SHA() -> (r: Self)
        ensures
            r@ == 0xc013,
    {
        Self(0xc013)
    }

    #[allow(non_snake_case)]
    pub fn TLS_ECDHE_RSA_WITH_AES_256_CBC_SHA() -> (r: Self)
        ensures
            r@ == 0xc014,
    {
        Self(0xc014)
    }

    #[allow(non_snake_case)]
    pub fn TLS_ECDHE_RSA_WITH_AES_128_CBC_SHA256() -> (r: Self)
        ensures
            r@ == 0xc027,
    {
        Self(0xc027)
    }

    #[allow(non_snake_case)]
    pub fn TLS_ECDHE_RSA_WITH_AES_256_CBC_SHA384() -> (r: Self)
        ensures
            r@ == 0xc028,
    {
        Self(0xc028)
    }

    #[allow(non_snake_case)]
    pub fn TLS_ECDHE_RSA_WITH_AES_128_GCM_SHA256() -> (r: Self)
        ensures
            r@ == 0xc02f,
    {
        Self(0xc02f)
    }

    #[allow(non_snake_case)]
    pub fn TLS_ECDHE_RSA_WITH_AES_256_GCM_SHA384() -> (r: Self)
        ensures
            r@ == 0xc030,
    {
        Self(0xc030)
    }

    #[allow(non_snake_case)]
    pub fn TLS_ECDHE_RSA_WITH_ARIA_128_GCM_SHA256() -> (r: Self)
        ensures
            r@ == 0xc060,
    {
        Self(0xc060)
    }

    #[allow(non_snake_case)]
    pub fn TLS_ECDHE_RSA_WITH_ARIA_256_GCM_SHA384() -> (r: Self)
        ensures
            r@ == 0xc061,
    {
        Self(0xc061)
    }

    #[allow(non_snake_case)]
    pub fn TLS_ECDHE_RSA_WITH_CAMELLIA_128_CBC_SHA256() -> (r: Self)
        ensures
            r@ == 0xc076,
    {
        Self(0xc076)
    }

    #[allow(non_snake_case)]
    pub fn TLS_ECDHE_RSA_WITH_CAMELLIA_256_CBC_SHA384() -> (r: Self)
        ensures
            r@ == 0xc077,
    {
        Self(0xc077)
    }

    #[allow(non_snake_case)]
    pub fn TLS_ECDHE_RSA_WITH_CHACHA20_POLY1305_SHA256() -> (r: Self)
        ensures
            r@ == 0xcca8,
    {
        Self(0xcca8)
    }

    #[allow(non_snake_case)]
    pub fn OLD_TLS_ECDHE_RSA_WITH_CHACHA20_POLY1305_SHA256() -> (r: Self)
        ensures
            r@ == 0xcc13,
    {
        Self(0xcc13)
    }

    #[allow(non_snake_case)]
    pub fn TLS_ECDHE_RSA_WITH_RC4_128_SHA() -> (r: Self)
        ensures
            r@ == 0xc011,
    {
        Self(0xc011)
    }

    // RSA
    #[allow(non_snake_case)]
    pub fn TLS_RSA_WITH_RC4_128_MD5() -> (r: Self)
        ensures
            r@ == 0x0004,
    {
        Self(0x0004)
    }

    #[allow(non_snake_case)]
    pub fn TLS_RSA_WITH_RC4_128_SHA() -> (r: Self)
        ensures
            r@ == 0x0005,
    {
        Self(0x0005)
    }

    #[allow(non_snake_case)]
    pub fn TLS_RSA_WITH_IDEA_CBC_SHA() -> (r: Self)
        ensures
            r@ == 0x0007,
    {
        Self(0x0007)
    }

    #[allow(non_snake_case)]
    pub fn TLS_RSA_WITH_3DES_EDE_CBC_SHA() -> (r: Self)
        ensures
            r@ == 0x000a,
    {
        Self(0x000a)
    }

    #[allow(non_snake_case)]
    pub fn TLS_RSA_WITH_AES_128_CBC_SHA() -> (r: Self)
        ensures
            r@ == 0x002f,
    {
        Self(0x002f)
    }

    #[allow(non_snake_case)]
    pub fn TLS_RSA_WITH_AES_256_CBC_SHA() -> (r: Self)
        ensures
            r@ == 0x0035,
    {
        Self(0x0035)
    }

    #[allow(non_snake_case)]
    pub fn TLS_RSA_WITH_AES_128_CBC_SHA256() -> (r: Self)
        ensures
            r@ == 0x003c,
    {
        Self(0x003c)
    }

    #[allow(non_snake_case)]
    pub fn TLS_RSA_WITH_AES_256_CBC_SHA256() -> (r: Self)
        ensures
            r@ == 0x003d,
    {
        Self(0x003d)
    }

    #[allow(non_snake_case)]
    pub fn TLS_RSA_WITH_AES_128_GCM_SHA256() -> (r: Self)
        ensures
            r@ == 0x009c,
    {
        Self(0x009c)
    }

    #[allow(non_snake_case)]
    pub fn TLS_RSA_WITH_AES_256_GCM_SHA384() -> (r: Self)
        ensures
            r@ == 0x009d,
    {
        Self(0x009d)
    }

    #[allow(non_snake_case)]
    pub fn TLS_RSA_WITH_AES_128_CCM() -> (r: Self)
        ensures
            r@ == 0xc09c,
    {
        Self(0xc09c)
    }

    #[allow(non_snake_case)]
    pub fn TLS_RSA_WITH_AES_256_CCM() -> (r: Self)
        ensures
            r@ == 0xc09d,
    {
        Self(0xc09d)
    }

    #[allow(non_snake_case)]
    pub fn TLS_RSA_WITH_AES_128_CCM_8() -> (r: Self)
        ensures
            r@ == 0xc0a0,
    {
        Self(0xc0a0)
    }

    #[allow(non_snake_case)]
    pub fn TLS_RSA_WITH_AES_256_CCM_8() -> (r: Self)
        ensures
            r@ == 0xc0a1,
    {
        Self(0xc0a1)
    }

    #[allow(non_snake_case)]
    pub fn TLS_RSA_WITH_CAMELLIA_128_CBC_SHA() -> (r: Self)
        ensures
            r@ == 0x0041,
    {
        Self(0x0041)
    }

    #[allow(non_snake_case)]
    pub fn TLS_RSA_WITH_CAMELLIA_256_CBC_SHA() -> (r: Self)
        ensures
            r@ == 0x0084,
    {
        Self(0x0084)
    }

    #[allow(non_snake_case)]
    pub fn TLS_RSA_WITH_CAMELLIA_128_CBC_SHA256() -> (r: Self)
        ensures
            r@ == 0x00ba,
    {
        Self(0x00ba)
    }

    #[allow(non_snake_case)]
    pub fn TLS_RSA_WITH_CAMELLIA_256_CBC_SHA256() -> (r: Self)
        ensures
            r@ == 0x00c0,
    {
        Self(0x00c0)
    }

    /// Returns the raw 16-bit cipher suite identifier.
    pub fn as_u16(self) -> (r: u16)
        ensures
            r == self@,
    {
        self.0
    }

    /// Returns the identifier in network byte order.
    pub fn to_be_bytes(self) -> (r: [u8; 2])
        ensures
            r@ == be16(self@ as int),
    {
        u16_to_be(self.0)
    }
}

impl From<u16> for TlsCipherSuite {
    fn from(value: u16) -> (r: Self) {
        Self(value)
    }
}

impl vstd::std_specs::convert::FromSpecImpl<u16> for TlsCipherSuite {
    open spec fn obeys_from_spec() -> bool {
        true
    }

    open spec fn from_spec(v: u16) -> Self {
        TlsCipherSuite(v)
    }
}

impl From<TlsCipherSuite> for u16 {
    fn from(value: TlsCipherSuite) -> (r: Self) {
        value.0
    }
}

impl vstd::std_specs::convert::FromSpecImpl<TlsCipherSuite> for u16 {
    open spec fn obeys_from_spec() -> bool {
        true
    }

    open spec fn from_spec(v: TlsCipherSuite) -> Self {
        v.0
    }
}

/// A TLS extension type.
///
/// Any 16-bit extension identifier can be represented, including unknown,
/// reserved, experimental, and GREASE values.
///
/// See: <https://www.iana.org/assignments/tls-extensiontype-values#tls-extensiontype-values-1>
#[derive(Debug, Clone, Copy, PartialEq, Eq, Hash, Structural)]
pub struct TlsExtensionType(pub u16);

impl View for TlsExtensionType {
    type V = u16;

    open spec fn view(&self) -> u16 {
        self.0
    }
}

impl TlsExtensionType {
    #[allow(non_snake_case)]
    pub fn SERVER_NAME() -> (r: Self)
        ensures
            r@ == 0x0000,
    {
        Self(0x0000)
    }

    #[allow(non_snake_case)]
    pub fn MAX_FRAGMENT_LENGTH() -> (r: Self)
        ensures
            r@ == 0x0001,
    {
        Self(0x0001)
    }

    #[allow(non_snake_case)]
    pub fn SUPPORTED_GROUPS() -> (r: Self)
        ensures
            r@ == 0x000a,
    {
        Self(0x000a)
    }

    #[allow(non_snake_case)]
    pub fn EC_POINT_FORMATS() -> (r: Self)
        ensures
            r@ == 0x000b,
    {
        Self(0x000b)
    }

    #[allow(non_snake_case)]
    pub fn SIGNATURE_ALGORITHMS() -> (r: Self)
        ensures
            r@ == 0x000d,
    {
        Self(0x000d)
    }

    #[allow(non_snake_case)]
    pub fn APPLICATION_LAYER_PROTOCOL_NEGOTIATION() -> (r: Self)
        ensures
            r@ == 0x0010,
    {
        Self(0x0010)
    }

    #[allow(non_snake_case)]
    pub fn EXTENDED_MASTER_SECRET() -> (r: Self)
        ensures
            r@ == 0x0017,
    {
        Self(0x0017)
    }

    #[allow(non_snake_case)]
    pub fn SESSION_TICKET() -> (r: Self)
        ensures
            r@ == 0x0023,
    {
        Self(0x0023)
    }

    #[allow(non_snake_case)]
    pub fn SUPPORTED_VERSIONS() -> (r: Self)
        ensures
            r@ == 0x002b,
    {
        Self(0x002b)
    }

    #[allow(non_snake_case)]
    pub fn PSK_KEY_EXCHANGE_MODES() -> (r: Self)
        ensures
            r@ == 0x002d,
    {
        Self(0x002d)
    }

    #[allow(non_snake_case)]
    pub fn KEY_SHARE() -> (r: Self)
        ensures
            r@ == 0x0033,
    {
        Self(0x0033)
    }

    #[allow(non_snake_case)]
    pub fn RENEGOTIATION_INFO() -> (r: Self)
        ensures
            r@ == 0xff01,
    {
        Self(0xff01)
    }

    /// Returns the raw 16-bit extension identifier.
    pub fn as_u16(self) -> (r: u16)
        ensures
            r == self@,
    {
        self.0
    }

    /// Returns the identifier in network byte order.
    pub fn to_be_bytes(self) -> (r: [u8; 2])
        ensures
            r@ == be16(self@ as int),
    {
        u16_to_be(self.0)
    }
}

/// A TLS supported group used for key exchange.
///
/// See: <https://www.iana.org/assignments/tls-parameters#tls-parameters-8>
#[derive(Debug, Clone, Copy, PartialEq, Eq, Hash, Structural)]
pub struct TlsSupportedGroup(pub u16);

impl View for TlsSupportedGroup {
    type V = u16;

    open spec fn view(&self) -> u16 {
        self.0
    }
}

impl TlsSupportedGroup {
    #[allow(non_snake_case)]
    pub fn SECP256R1() -> (r: Self)
        ensures
            r@ == 0x0017,
    {
        Self(0x0017)
    }

    #[allow(non_snake_case)]
    pub fn SECP384R1() -> (r: Self)
        ensures
            r@ == 0x0018,
    {
        Self(0x0018)
    }

    #[allow(non_snake_case)]
    pub fn SECP521R1() -> (r: Self)
        ensures
            r@ == 0x0019,
    {
        Self(0x0019)
    }

    #[allow(non_snake_case)]
    pub fn X25519() -> (r: Self)
        ensures
            r@ == 0x001d,
    {
        Self(0x001d)
    }

    /// Returns the raw 16-bit supported group identifier.
    pub fn as_u16(self) -> (r: u16)
        ensures
            r == self@,
    {
        self.0
    }

    /// Returns the identifier in network byte order.
    pub fn to_be_bytes(self) -> (r: [u8; 2])
        ensures
            r@ == be16(self@ as int),
    {
        u16_to_be(self.0)
    }
}

/// An application protocol identifier used with TLS ALPN negotiation.
///
/// See: <https://www.iana.org/assignments/tls-extensiontype-values#alpn-protocol-ids>
#[derive(Debug, Clone, Copy, PartialEq, Eq, Hash)]
pub struct AlpnProtocol<'a>(&'a [u8]);

impl<'a> View for AlpnProtocol<'a> {
    type V = Seq<u8>;

    closed spec fn view(&self) -> Seq<u8> {
        self.0@
    }
}

impl AlpnProtocol<'static> {
    /// The `http/0.9` protocol identifier.
    #[allow(non_snake_case)]
    pub fn HTTP_09() -> (r: Self)
        ensures
            r@ == seq![104u8, 116u8, 116u8, 112u8, 47u8, 48u8, 46u8, 57u8],
    {
        Self(&[104u8, 116u8, 116u8, 112u8, 47u8, 48u8, 46u8, 57u8])
    }

    /// The `http/1.0` protocol identifier.
    #[allow(non_snake_case)]
    pub fn HTTP_10() -> (r: Self)
        ensures
            r@ == seq![104u8, 116u8, 116u8, 112u8, 47u8, 49u8, 46u8, 48u8],
    {
        Self(&[104u8, 116u8, 116u8, 112u8, 47u8, 49u8, 46u8, 48u8])
    }

    /// The `http/1.1` protocol identifier.
    #[allow(non_snake_case)]
    pub fn HTTP_11() -> (r: Self)
        ensures
            r@ == seq![104u8, 116u8, 116u8, 112u8, 47u8, 49u8, 46u8, 49u8],
    {
        Self(&[104u8, 116u8, 116u8, 112u8, 47u8, 49u8, 46u8, 49u8])
    }

    /// The `spdy/1` protocol identifier.
    #[allow(non_snake_case)]
    pub fn SPDY_1() -> (r: Self)
        ensures
            r@ == seq![115u8, 112u8, 100u8, 121u8, 47u8, 49u8],
    {
        Self(&[115u8, 112u8, 100u8, 121u8, 47u8, 49u8])
    }

    /// The `spdy/2` protocol identifier.
    #[allow(non_snake_case)]
    pub fn SPDY_2() -> (r: Self)
        ensures
            r@ == seq![115u8, 112u8, 100u8, 121u8, 47u8, 50u8],
    {
        Self(&[115u8, 112u8, 100u8, 121u8, 47u8, 50u8])
    }

    /// The `spdy/3` protocol identifier.
    #[allow(non_snake_case)]
    pub fn SPDY_3() -> (r: Self)
        ensures
            r@ == seq![115u8, 112u8, 100u8, 121u8, 47u8, 51u8],
    {
        Self(&[115u8, 112u8, 100u8, 121u8, 47u8, 51u8])
    }

    /// The `h2` protocol identifier.
    #[allow(non_snake_case)]
    pub fn H2() -> (r: Self)
        ensures
            r@ == seq![104u8, 50u8],
    {
        Self(&[104u8, 50u8])
    }

    /// The `h2c` protocol identifier.
    #[allow(non_snake_case)]
    pub fn H2C() -> (r: Self)
        ensures
            r@ == seq![104u8, 50u8, 99u8],
    {
        Self(&[104u8, 50u8, 99u8])
    }

    /// The `h3` protocol identifier.
    #[allow(non_snake_case)]
    pub fn H3() -> (r: Self)
        ensures
            r@ == seq![104u8, 51u8],
    {
        Self(&[104u8, 51u8])
    }

    /// The `hq` protocol identifier.
    #[allow(non_snake_case)]
    pub fn HQ() -> (r: Self)
        ensures
            r@ == seq![104u8, 113u8],
    {
        Self(&[104u8, 113u8])
    }
}

impl<'a> AlpnProtocol<'a> {
    /// Returns the underlying value as bytes.
    pub fn as_bytes(self) -> (r: &'a [u8])
        ensures
            r@ == self@,
    {
        self.0
    }
}

/// A TLS signature scheme identifier.
///
/// See: <https://www.iana.org/assignments/tls-parameters#tls-parameters-16>
#[derive(Debug, Clone, Copy, PartialEq, Eq, Hash, Structural)]
pub struct TlsSignatureAlgorithm(pub u16);

impl View for TlsSignatureAlgorithm {
    type V = u16;

    open spec fn view(&self) -> u16 {
        self.0
    }
}

impl TlsSignatureAlgorithm {
    #[allow(non_snake_case)]
    pub fn RSA_PKCS1_SHA1() -> (r: Self)
        ensures
            r@ == 0x0201,
    {
        Self(0x0201)
    }

    #[allow(non_snake_case)]
    pub fn RSA_PKCS1_SHA256() -> (r: Self)
        ensures
            r@ == 0x0401,
    {
        Self(0x0401)
    }

    #[allow(non_snake_case)]
    pub fn ECDSA_SECP256R1_SHA256() -> (r: Self)
        ensures
            r@ == 0x0403,
    {
        Self(0x0403)
    }

    #[allow(non_snake_case)]
    pub fn RSA_PSS_RSAE_SHA256() -> (r: Self)
        ensures
            r@ == 0x0804,
    {
        Self(0x0804)
    }

    #[allow(non_snake_case)]
    pub fn RSA_PKCS1_SHA384() -> (r: Self)
        ensures
            r@ == 0x0501,
    {
        Self(0x0501)
    }

    #[allow(non_snake_case)]
    pub fn ECDSA_SECP384R1_SHA384() -> (r: Self)
        ensures
            r@ == 0x0503,
    {
        Self(0x0503)
    }

    #[allow(non_snake_case)]
    pub fn RSA_PSS_RSAE_SHA384() -> (r: Self)
        ensures
            r@ == 0x0805,
    {
        Self(0x0805)
    }

    #[allow(non_snake_case)]
    pub fn RSA_PKCS1_SHA512() -> (r: Self)
        ensures
            r@ == 0x0601,
    {
        Self(0x0601)
    }

    #[allow(non_snake_case)]
    pub fn RSA_PSS_RSAE_SHA512() -> (r: Self)
        ensures
            r@ == 0x0806,
    {
        Self(0x0806)
    }

    /// Returns the raw 16-bit signature algorithm identifier.
    pub fn as_u16(self) -> (r: u16)
        ensures
            r == self@,
    {
        self.0
    }

    /// Returns the identifier in network byte order.
    pub fn to_be_bytes(self) -> (r: [u8; 2])
        ensures
            r@ == be16(self@ as int),
    {
        u16_to_be(self.0)
    }
}

/// A TLS PSK key exchange mode.
///
/// Any 8-bit value can be represented, including unknown or future values.
///
/// See: <https://www.iana.org/assignments/tls-parameters#tls-parameters-18>
#[derive(Debug, Clone, Copy, PartialEq, Eq, Hash, Structural)]
pub struct TlsPskKeyExchangeMode(pub u8);

impl View for TlsPskKeyExchangeMode {
    type V = u8;

    open spec fn view(&self) -> u8 {
        self.0
    }
}

impl TlsPskKeyExchangeMode {
    #[allow(non_snake_case)]
    pub fn PSK_KE() -> (r: Self)
        ensures
            r@ == 0x00,
    {
        Self(0x00)
    }

    #[allow(non_snake_case)]
    pub fn PSK_DHE_KE() -> (r: Self)
        ensures
            r@ == 0x01,
    {
        Self(0x01)
    }

    /// Returns the raw 8-bit identifier.
    pub fn as_u8(self) -> (r: u8)
        ensures
            r == self@,
    {
        self.0
    }
}

/// What a TLS extension holds: its type and its payload.
pub struct ExtensionModel {
    pub ext_type: u16,
    pub data: Seq<u8>,
}

/// The wire form of one extension: type, payload length, payload.
pub open spec fn encode_extension(e: ExtensionModel) -> Seq<u8> {
    be16(e.ext_type as int) + be16(e.data.len() as int) + e.data
}

/// The wire form of a list of extensions, one after another.
pub open spec fn encode_extensions(exts: Seq<ExtensionModel>) -> Seq<u8>
    decreases exts.len(),
{
    if exts.len() == 0 {
        Seq::empty()
    } else {
        encode_extension(exts[0]) + encode_extensions(exts.drop_first())
    }
}

/// An extension's payload fits its 16-bit length field.
pub open spec fn extension_fits(e: ExtensionModel) -> bool {
    e.data.len() <= 0xffff
}

/// Appending one extension to a list appends its wire form to the list's.
pub proof fn lemma_encode_extensions_push(exts: Seq<ExtensionModel>, e: ExtensionModel)
    ensures
        encode_extensions(exts.push(e)) =~= encode_extensions(exts) + encode_extension(e),
    decreases exts.len(),
{
    if exts.len() == 0 {
        assert(exts.push(e).drop_first() =~= Seq::<ExtensionModel>::empty());
        assert(encode_extensions(exts.push(e).drop_first()) =~= Seq::<u8>::empty());
    } else {
        assert(exts.push(e).drop_first() =~= exts.drop_first().push(e));
        lemma_encode_extensions_push(exts.drop_first(), e);
    }
}

/// A generic TLS extension.
///
/// A TLS extension consists of a 16-bit extension type, a 16-bit length field,
/// and the extension-specific payload.
///
/// ```text
/// +----------------------+
/// | Extension Type       | 2 bytes
/// +----------------------+
/// | Extension Length     | 2 bytes
/// +----------------------+
/// | Extension Data       | N bytes
/// +----------------------+
/// ```
#[derive(Debug)]
pub struct TlsExtension {
    extension_type: TlsExtensionType,
    extension_data: Vec<u8>,
}

impl View for TlsExtension {
    type V = ExtensionModel;

    closed spec fn view(&self) -> ExtensionModel {
        ExtensionModel { ext_type: self.extension_type.0, data: self.extension_data@ }
    }
}

impl Clone for TlsExtension {
    fn clone(&self) -> (r: Self)
        ensures
            r@ == self@,
    {
        proof {
            use_type_invariant(self);
        }
        Self { extension_type: self.extension_type, extension_data: self.extension_data.clone() }
    }
}

impl TlsExtension {
    #[verifier::type_invariant]
    spec fn fits(self) -> bool {
        self.extension_data@.len() <= 0xffff
    }

    /// Creates a new TLS extension.
    ///
    /// # Errors
    ///
    /// Returns [`Error::LengthOverflow`] if `extension_data` exceeds the
    /// maximum length representable by the 16-bit TLS extension length field.
    pub fn new(extension_type: TlsExtensionType, extension_data: Vec<u8>) -> (r: Result<
        Self,
        Error,
    >)
        ensures
            match r {
                Ok(e) => {
                    &&& extension_data@.len() <= 0xffff
                    &&& e@ == ExtensionModel { ext_type: extension_type@, data: extension_data@ }
                },
                Err(err) => {
                    &&& extension_data@.len() > 0xffff
                    &&& err == overflow(0xffff, extension_data@.len() as int)
                },
            },
    {
        if extension_data.len() > 0xffff {
            return Err(Error::LengthOverflow { max: 0xffff, actual: extension_data.len() });
        }
        Ok(Self { extension_type, extension_data })
    }

    /// Encodes this TLS extension into its wire representation.
    ///
    /// The returned bytes in network byte order.
    pub fn to_bytes(&self) -> (r: Vec<u8>)
        ensures
            extension_fits(self@),
            r@ == encode_extension(self@),
    {
        proof {
            use_type_invariant(self);
        }
        let mut encoded_extension = Vec::with_capacity(4 + self.extension_data.len());
        let extension_data_length = self.extension_data.len() as u16;
        encoded_extension.extend_from_slice(&self.extension_type.to_be_bytes());
        encoded_extension.extend_from_slice(&u16_to_be(extension_data_length));
        encoded_extension.extend_from_slice(self.extension_data.as_slice());
        assert(encoded_extension@ =~= encode_extension(self@));
        encoded_extension
    }

    /// Returns the extension-specific payload.
    pub fn extension_data(&self) -> (r: &[u8])
        ensures
            extension_fits(self@),
            r@ == self@.data,
    {
        proof {
            use_type_invariant(self);
        }
        self.extension_data.as_slice()
    }

    /// Returns the extension type identifier.
    pub fn extension_type(&self) -> (r: TlsExtensionType)
        ensures
            r@ == self@.ext_type,
    {
        self.extension_type
    }
}

/// The abstract contents of a list of extensions.
pub open spec fn extension_models(v: Seq<TlsExtension>) -> Seq<ExtensionModel> {
    v.map_values(|e: TlsExtension| e@)
}

/// `acc` followed by the list in `r`, or the error in `r`.
pub open spec fn prepend_ok<T>(acc: Seq<T>, r: Result<Seq<T>, Error>) -> Result<Seq<T>, Error> {
    match r {
        Ok(rest) => Ok(acc + rest),
        Err(e) => Err(e),
    }
}

/// The extensions held by a block of back-to-back extensions, or the error
/// the first incomplete one reports.
pub open spec fn parse_extensions(s: Seq<u8>) -> Result<Seq<ExtensionModel>, Error>
    decreases s.len(),
{
    if s.len() == 0 {
        Ok(Seq::empty())
    } else if s.len() < 2 {
        Err(eof(2, s.len() as int))
    } else if s.len() < 4 {
        Err(eof(2, s.len() - 2))
    } else {
        let n: int = u16_at(s, 2) as int;
        if s.len() - 4 < n {
            Err(eof(n, s.len() - 4))
        } else {
            let e = ExtensionModel { ext_type: u16_at(s, 0), data: s.subrange(4, 4 + n) };
            prepend_ok(seq![e], parse_extensions(s.subrange(4 + n, s.len() as int)))
        }
    }
}

/// Every extension a successful parse yields fits its length field.
pub proof fn lemma_parse_extensions_fit(s: Seq<u8>)
    requires
        parse_extensions(s) is Ok,
    ensures
        forall|i: int|
            0 <= i < parse_extensions(s)->Ok_0.len() ==> #[trigger] extension_fits(
                parse_extensions(s)->Ok_0[i],
            ),
    decreases s.len(),
{
    if s.len() >= 4 {
        let n: int = u16_at(s, 2) as int;
        lemma_parse_extensions_fit(s.subrange(4 + n, s.len() as int));
    }
}

/// Decoding the wire form of extensions that fit gives them back.
pub proof fn law_extensions_round_trip(exts: Seq<ExtensionModel>)
    requires
        forall|i: int| 0 <= i < exts.len() ==> #[trigger] extension_fits(exts[i]),
    ensures
        parse_extensions(encode_extensions(exts)) == Ok::<Seq<ExtensionModel>, Error>(exts),
    decreases exts.len(),
{
    if exts.len() > 0 {
        let e = exts[0];
        let s = encode_extensions(exts);
        let head = encode_extension(e);
        let tail = encode_extensions(exts.drop_first());
        assert(extension_fits(e));
        assert(s =~= head + tail);
        assert(u16_at(s, 0) == e.ext_type);
        assert(u16_at(s, 2) == e.data.len());
        assert(s.subrange(4, 4 + e.data.len() as int) =~= e.data);
        assert(s.subrange(4 + e.data.len() as int, s.len() as int) =~= tail);
        assert forall|i: int| 0 <= i < exts.drop_first().len() implies #[trigger] extension_fits(
            exts.drop_first()[i],
        ) by {
            assert(extension_fits(exts[i + 1]));
        }
        law_extensions_round_trip(exts.drop_first());
        let n: int = u16_at(s, 2) as int;
        assert(n == e.data.len());
        assert(s.len() >= 4 + n);
        let e2 = ExtensionModel { ext_type: u16_at(s, 0), data: s.subrange(4, 4 + n) };
        assert(e2 == e);
        assert(seq![e] + exts.drop_first() =~= exts);
        assert(parse_extensions(s) == prepend_ok(
            seq![e2],
            parse_extensions(s.subrange(4 + n, s.len() as int)),
        ));
    } else {
        assert(encode_extensions(exts) =~= Seq::<u8>::empty());
        assert(exts =~= Seq::<ExtensionModel>::empty());
    }
}

/// Encoding the extensions a block parses into gives the block back.
pub proof fn law_extensions_reencode(s: Seq<u8>)
    requires
        parse_extensions(s) is Ok,
    ensures
        encode_extensions(parse_extensions(s)->Ok_0) == s,
    decreases s.len(),
{
    if s.len() > 0 {
        let n: int = u16_at(s, 2) as int;
        let rest = s.subrange(4 + n, s.len() as int);
        law_extensions_reencode(rest);
        let e = ExtensionModel { ext_type: u16_at(s, 0), data: s.subrange(4, 4 + n) };
        let exts = parse_extensions(s)->Ok_0;
        assert(exts == seq![e] + parse_extensions(rest)->Ok_0);
        assert(exts[0] == e);
        assert(exts.drop_first() =~= parse_extensions(rest)->Ok_0);
        crate::wire::lemma_be16_of_bytes(s[0], s[1]);
        crate::wire::lemma_be16_of_bytes(s[2], s[3]);
        assert(encode_extension(e) =~= s.subrange(0, 4 + n));
        assert(s.subrange(0, 4 + n) + rest =~= s);
    } else {
        assert(encode_extensions(Seq::<ExtensionModel>::empty()) =~= s);
    }
}

/// Parses a block of back-to-back extensions.
pub(crate) fn parse_extension_list(data: &[u8]) -> (r: Result<Vec<TlsExtension>, Error>)
    ensures
        match r {
            Ok(v) => parse_extensions(data@) == Ok::<Seq<ExtensionModel>, Error>(
                extension_models(v@),
            ),
            Err(e) => parse_extensions(data@) == Err::<Seq<ExtensionModel>, Error>(e),
        },
{
    let mut reader = TlsReader::new(data);
    let mut extensions: Vec<TlsExtension> = Vec::new();
    assert(reader.unread() =~= data@);
    assert(extension_models(extensions@) =~= Seq::<ExtensionModel>::empty());
    while !reader.is_empty()
        invariant
            reader.data() == data@,
            reader.valid(),
            parse_extensions(data@) == prepend_ok(
                extension_models(extensions@),
                parse_extensions(reader.unread()),
            ),
        decreases reader.data().len() - reader.pos(),
    {
        let ghost s = reader.unread();
        let ghost p = reader.pos();
        assert(s.len() > 0);
        let extension_type = TlsExtensionType(reader.read_u16()?);
        assert(u16_at(s, 0) == extension_type.0);
        let extension_length = reader.read_u16()? as usize;
        assert(u16_at(s, 2) == extension_length);
        let extension_data = reader.read_bytes(extension_length)?;
        assert(extension_data@ =~= s.subrange(4, 4 + extension_length as int));
        let ext = TlsExtension::new(extension_type, vstd::slice::slice_to_vec(extension_data))?;
        let ghost before = extension_models(extensions@);
        extensions.push(ext);
        proof {
            assert(reader.unread() =~= s.subrange(4 + extension_length as int, s.len() as int));
            assert(extension_models(extensions@) =~= before + seq![ext@]);
            match parse_extensions(reader.unread()) {
                Ok(rest) => {
                    assert(before + (seq![ext@] + rest) =~= (before + seq![ext@]) + rest);
                },
                Err(_) => {},
            }
        }
    }
    assert(reader.unread() =~= Seq::<u8>::empty());
    assert(extension_models(extensions@) + Seq::<ExtensionModel>::empty() =~= extension_models(
        extensions@,
    ));
    Ok(extensions)
}

/// Returns the payload of the first extension of type `t`, if there is one.
pub(crate) fn find_extension_data(exts: &[TlsExtension], t: u16) -> (r: Option<&[u8]>)
    ensures
        match find_extension(extension_models(exts@), t) {
            Some(e) => r matches Some(d) && d@ == e.data,
            None => r is None,
        },
{
    let ghost models = extension_models(exts@);
    let mut i: usize = 0;
    assert(models.skip(0) =~= models);
    while i < exts.len()
        invariant
            i <= exts@.len(),
            models == extension_models(exts@),
            find_extension(models, t) == find_extension(models.skip(i as int), t),
        decreases exts@.len() - i,
    {
        if exts[i].extension_type().as_u16() == t {
            return Some(exts[i].extension_data());
        }
        assert(models.skip(i as int).drop_first() =~= models.skip(i + 1));
        i = i + 1;
    }
    None
}

} // verus!
