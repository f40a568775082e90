use vstd::prelude::*;
use vstd::string::StringSliceAdditionalSpecFns;
use vstd::utf8::valid_utf8;

use crate::error::{eof, Error};
use crate::text::str_from_utf8;
use crate::tls::{
    extension_fits, extension_models, ExtensionModel, TlsCipherSuite,
    TlsExtension, TlsExtensionType, TlsHandshakeType, TlsReader, TlsRecord, TlsVersion,
    HANDSHAKE_HEADER_LEN,
};
use crate::tls::record::{law_record_ignores_following_bytes, parse_record, RecordModel};
use crate::wire::{be24_value, u16_at};

verus! {

/// Reported when a `ServerHello` declares a session ID longer than 32 bytes.
pub open spec fn server_session_id_too_long() -> Error {
    Error::Malformed("ServerHello session ID exceeds 32 bytes")
}

/// Reported when a `ServerHello` selects a compression method other than null.
pub open spec fn server_bad_compression() -> Error {
    Error::Malformed("unsupported ServerHello compression method")
}

/// Reported when bytes follow the extension block.
pub open spec fn server_trailing_bytes() -> Error {
    Error::Malformed("trailing bytes after ServerHello extensions")
}

/// Reported when `supported_versions` appears twice.
pub open spec fn server_duplicate_versions() -> Error {
    Error::Malformed("duplicate supported_versions extension in ServerHello")
}

/// Reported when `supported_versions` does not hold exactly one version.
pub open spec fn server_bad_versions() -> Error {
    Error::Malformed("invalid supported_versions extension in ServerHello")
}

/// Reported when the ALPN list length disagrees with the extension length.
pub open spec fn alpn_bad_list_length() -> Error {
    Error::Malformed("invalid ALPN protocol list length in ServerHello")
}

/// Reported when the ALPN extension names more than one protocol.
pub open spec fn alpn_multiple_protocols() -> Error {
    Error::Malformed("ServerHello ALPN extension contains multiple protocols")
}

/// Reported when the selected ALPN protocol is not valid UTF-8.
pub open spec fn alpn_not_utf8() -> Error {
    Error::Malformed("ServerHello ALPN protocol is not valid UTF-8")
}

/// Reported when the decoder meets a handshake message other than a `ServerHello`.
pub open spec fn expected_server_hello() -> Error {
    Error::Malformed("expected ServerHello")
}

/// The extension type of `supported_versions`.
pub open spec fn supported_versions_type() -> u16 {
    0x002b
}

/// The extension type of ALPN.
pub open spec fn alpn_type() -> u16 {
    0x0010
}

/// What a `ServerHello` body holds, with the version it negotiates.
pub struct ServerHelloModel {
    pub legacy_version: u16,
    pub tls_version: u16,
    pub random: Seq<u8>,
    pub session_id: Seq<u8>,
    pub cipher_suite: u16,
    pub extensions: Seq<ExtensionModel>,
}

/// The extensions of a `ServerHello` extension block and the version its
/// `supported_versions` extension names (`negotiated` if it has none), or
/// the error the parse reports.
pub open spec fn parse_server_extensions(s: Seq<u8>, negotiated: Option<u16>) -> Result<
    (Seq<ExtensionModel>, Option<u16>),
    Error,
>
    decreases s.len(),
{
    if s.len() == 0 {
        Ok((Seq::empty(), negotiated))
    } else if s.len() < 2 {
        Err(eof(2, s.len() as int))
    } else if s.len() < 4 {
        Err(eof(2, s.len() - 2))
    } else {
        let n: int = u16_at(s, 2) as int;
        let t = u16_at(s, 0);
        if s.len() - 4 < n {
            Err(eof(n, s.len() - 4))
        } else if t == supported_versions_type() && negotiated is Some {
            Err(server_duplicate_versions())
        } else if t == supported_versions_type() && n != 2 {
            Err(server_bad_versions())
        } else {
            let data = s.subrange(4, 4 + n);
            let next = if t == supported_versions_type() {
                Some(u16_at(data, 0))
            } else {
                negotiated
            };
            match parse_server_extensions(s.subrange(4 + n, s.len() as int), next) {
                Ok((rest, v)) => Ok((seq![ExtensionModel { ext_type: t, data }] + rest, v)),
                Err(e) => Err(e),
            }
        }
    }
}

/// The `ServerHello` a body encodes, or the error its parse reports.
pub open spec fn parse_server_hello(b: Seq<u8>) -> Result<ServerHelloModel, Error> {
    if b.len() < 2 {
        Err(eof(2, b.len() as int))
    } else if b.len() < 34 {
        Err(eof(32, b.len() - 2))
    } else if b.len() < 35 {
        Err(eof(1, 0))
    } else if b[34] > 32 {
        Err(server_session_id_too_long())
    } else if b.len() < 35 + b[34] {
        Err(eof(b[34] as int, b.len() - 35))
    } else {
        let p: int = 35 + b[34];
        if b.len() < p + 2 {
            Err(eof(2, b.len() - p))
        } else if b.len() < p + 3 {
            Err(eof(1, 0))
        } else if b[p + 2] != 0 {
            Err(server_bad_compression())
        } else {
            let r: int = p + 3;
            let exts: Result<(Seq<ExtensionModel>, Option<u16>), Error> = if r == b.len() {
                Ok((Seq::empty(), None))
            } else if b.len() < r + 2 {
                Err(eof(2, b.len() - r))
            } else {
                let n: int = u16_at(b, r) as int;
                if b.len() < r + 2 + n {
                    Err(eof(n, b.len() - r - 2))
                } else if b.len() != r + 2 + n {
                    Err(server_trailing_bytes())
                } else {
                    parse_server_extensions(b.subrange(r + 2, r + 2 + n), None)
                }
            };
            match exts {
                Ok((extensions, negotiated)) => Ok(
                    ServerHelloModel {
                        legacy_version: u16_at(b, 0),
                        tls_version: match negotiated {
                            Some(v) => v,
                            None => u16_at(b, 0),
                        },
                        random: b.subrange(2, 34),
                        session_id: b.subrange(35, p),
                        cipher_suite: u16_at(b, p),
                        extensions,
                    },
                ),
                Err(e) => Err(e),
            }
        }
    }
}

/// The first extension of type `t`, if there is one.
pub open spec fn find_extension(exts: Seq<ExtensionModel>, t: u16) -> Option<ExtensionModel>
    decreases exts.len(),
{
    if exts.len() == 0 {
        None
    } else if exts[0].ext_type == t {
        Some(exts[0])
    } else {
        find_extension(exts.drop_first(), t)
    }
}

/// The protocol an ALPN extension payload selects, or the error its parse
/// reports: a list length covering the rest of the payload, then exactly
/// one length-prefixed protocol name that is valid UTF-8.
pub open spec fn parse_alpn(d: Seq<u8>) -> Result<Option<Seq<u8>>, Error> {
    if d.len() < 2 {
        Err(eof(2, d.len() as int))
    } else if u16_at(d, 0) != d.len() - 2 {
        Err(alpn_bad_list_length())
    } else if d.len() < 3 {
        Err(eof(1, 0))
    } else {
        let n: int = d[2] as int;
        if d.len() - 3 < n {
            Err(eof(n, d.len() - 3))
        } else if d.len() != 3 + n {
            Err(alpn_multiple_protocols())
        } else if !valid_utf8(d.subrange(3, 3 + n)) {
            Err(alpn_not_utf8())
        } else {
            Ok(Some(d.subrange(3, 3 + n)))
        }
    }
}

/// The bytes of the ALPN protocol a `ServerHello` selects: none without an
/// ALPN extension, else what its first ALPN extension holds.
pub open spec fn selected_alpn(m: ServerHelloModel) -> Result<Option<Seq<u8>>, Error> {
    match find_extension(m.extensions, alpn_type()) {
        None => Ok(None),
        Some(e) => parse_alpn(e.data),
    }
}

/// The fields of a `ServerHello` fit their length fields.
pub open spec fn server_hello_valid(m: ServerHelloModel) -> bool {
    &&& m.random.len() == 32
    &&& m.session_id.len() <= 32
    &&& forall|i: int| 0 <= i < m.extensions.len() ==> #[trigger] extension_fits(m.extensions[i])
}

/// What the decoder answers and the bytes it keeps, when its buffer holds
/// `buf`: nothing yet while a message is incomplete, an error for a message
/// that is not a `ServerHello` or a `ServerHello` that does not parse, and the
/// parsed `ServerHello` (with an emptied buffer) once it is complete.
pub open spec fn decoder_step(buf: Seq<u8>) -> (Result<Option<ServerHelloModel>, Error>, Seq<u8>) {
    if buf.len() < 4 {
        (Ok(None), buf)
    } else if buf[0] != 2 {
        (Err(expected_server_hello()), buf)
    } else {
        let total: int = 4 + be24_value(buf[1], buf[2], buf[3]) as int;
        if buf.len() < total {
            (Ok(None), buf)
        } else {
            match parse_server_hello(buf.subrange(4, total)) {
                Ok(m) => (Ok(Some(m)), Seq::empty()),
                Err(e) => (Err(e), buf),
            }
        }
    }
}

/// What the decoder answers and keeps after being handed `record` with
/// `buf` buffered: records of other content types are passed over; a
/// handshake record's payload is appended and the buffer decoded.
pub open spec fn decoder_push(buf: Seq<u8>, record: RecordModel) -> (
    Result<Option<ServerHelloModel>, Error>,
    Seq<u8>,
) {
    if record.content_type != 22 {
        (Ok(None), buf)
    } else {
        decoder_step(buf + record.payload)
    }
}

/// A `ServerHello` split over two records comes out of the decoder whole:
/// the first part is kept and answered with nothing, the second completes
/// the message, which the decoder returns and then forgets.
pub proof fn law_decoder_reassembles_split_server_hello(
    body: Seq<u8>,
    m: ServerHelloModel,
    split: int,
    first: RecordModel,
    second: RecordModel,
)
    requires
        parse_server_hello(body) == Ok::<ServerHelloModel, Error>(m),
        body.len() <= 0xff_ffff,
        0 <= split < 4 + body.len(),
        first.content_type == 22,
        second.content_type == 22,
        first.payload == crate::tls::encode_handshake(
            crate::tls::HandshakeModel { msg_type: 2, body },
        ).subrange(0, split),
        second.payload == crate::tls::encode_handshake(
            crate::tls::HandshakeModel { msg_type: 2, body },
        ).subrange(split, 4 + body.len() as int),
    ensures
        decoder_push(Seq::empty(), first) == (
            Ok::<Option<ServerHelloModel>, Error>(None),
            first.payload,
        ),
        decoder_push(first.payload, second) == (
            Ok::<Option<ServerHelloModel>, Error>(Some(m)),
            Seq::<u8>::empty(),
        ),
{
    let h = crate::tls::encode_handshake(crate::tls::HandshakeModel { msg_type: 2, body });
    crate::wire::lemma_be24_round_trip(body.len() as int);
    assert(Seq::<u8>::empty() + first.payload =~= first.payload);
    assert(first.payload + second.payload =~= h);
    assert(h[0] == 2);
    assert(be24_value(h[1], h[2], h[3]) == body.len());
    if split >= 4 {
        assert(first.payload[0] == 2);
        assert(first.payload[1] == h[1] && first.payload[2] == h[2] && first.payload[3] == h[3]);
    }
    assert(h.subrange(4, 4 + body.len() as int) =~= body);
}

/// The handshake bytes a list of records carries: the payloads of its
/// handshake records, one after another.
pub open spec fn handshake_bytes(records: Seq<RecordModel>) -> Seq<u8>
    decreases records.len(),
{
    if records.len() == 0 {
        Seq::empty()
    } else {
        handshake_bytes(records.drop_last()) + (if records.last().content_type == 22 {
            records.last().payload
        } else {
            Seq::empty()
        })
    }
}

/// Hands the decoder the records one by one, with `buf` buffered: whether it
/// answered nothing to every one of them, and what it keeps at the end (or
/// when it first answers something).
pub open spec fn decoder_push_all(buf: Seq<u8>, records: Seq<RecordModel>) -> (bool, Seq<u8>)
    decreases records.len(),
{
    if records.len() == 0 {
        (true, buf)
    } else {
        let (quiet, kept) = decoder_push_all(buf, records.drop_last());
        if !quiet {
            (false, kept)
        } else {
            let (answer, next) = decoder_push(kept, records.last());
            (answer == Ok::<Option<ServerHelloModel>, Error>(None), next)
        }
    }
}

/// Records whose handshake bytes are a proper beginning of a `ServerHello`
/// message are each answered with nothing, and the decoder keeps those bytes.
proof fn lemma_decoder_push_all_prefix(h: Seq<u8>, body: Seq<u8>, records: Seq<RecordModel>)
    requires
        body.len() <= 0xff_ffff,
        h == crate::tls::encode_handshake(crate::tls::HandshakeModel { msg_type: 2, body }),
        handshake_bytes(records).len() < h.len(),
        handshake_bytes(records) == h.subrange(0, handshake_bytes(records).len() as int),
    ensures
        decoder_push_all(Seq::empty(), records) == (true, handshake_bytes(records)),
    decreases records.len(),
{
    if records.len() > 0 {
        let before = handshake_bytes(records.drop_last());
        let now = handshake_bytes(records);
        assert(now.subrange(0, before.len() as int) =~= before);
        assert(before =~= h.subrange(0, before.len() as int));
        lemma_decoder_push_all_prefix(h, body, records.drop_last());
        let last = records.last();
        if last.content_type == 22 {
            assert(before + last.payload =~= now);
            crate::wire::lemma_be24_round_trip(body.len() as int);
            if now.len() >= 4 {
                assert(now[0] == h[0]);
                assert(now[1] == h[1] && now[2] == h[2] && now[3] == h[3]);
                assert(be24_value(h[1], h[2], h[3]) == body.len());
            }
        } else {
            assert(before + Seq::<u8>::empty() =~= before);
        }
    }
}

/// A `ServerHello` spread over any number of records comes out of a fresh
/// decoder whole: records of other content types anywhere change nothing,
/// every record before the last is answered with nothing, and the last one,
/// a handshake record that completes the message, is answered with the
/// `ServerHello`, after which the decoder holds nothing, as a new one does.
pub proof fn law_decoder_reassembles_server_hello(
    body: Seq<u8>,
    m: ServerHelloModel,
    records: Seq<RecordModel>,
)
    requires
        parse_server_hello(body) == Ok::<ServerHelloModel, Error>(m),
        body.len() <= 0xff_ffff,
        records.len() > 0,
        records.last().content_type == 22,
        records.last().payload.len() > 0,
        handshake_bytes(records) == crate::tls::encode_handshake(
            crate::tls::HandshakeModel { msg_type: 2, body },
        ),
    ensures
        decoder_push_all(Seq::empty(), records.drop_last()) == (
            true,
            handshake_bytes(records.drop_last()),
        ),
        decoder_push(handshake_bytes(records.drop_last()), records.last()) == (
            Ok::<Option<ServerHelloModel>, Error>(Some(m)),
            Seq::<u8>::empty(),
        ),
{
    let h = crate::tls::encode_handshake(crate::tls::HandshakeModel { msg_type: 2, body });
    let before = handshake_bytes(records.drop_last());
    assert(before + records.last().payload =~= h);
    assert(h.subrange(0, before.len() as int) =~= before);
    lemma_decoder_push_all_prefix(h, body, records.drop_last());
    crate::wire::lemma_be24_round_trip(body.len() as int);
    assert(h[0] == 2);
    assert(be24_value(h[1], h[2], h[3]) == body.len());
    assert(h.subrange(4, 4 + body.len() as int) =~= body);
}

/// A parsed extension block names the version of its `supported_versions`
/// extension, wherever that extension stands in the block: a block holding
/// one (and only then) reports its two-byte value, a block without one
/// reports what it was given.
proof fn lemma_server_extensions_version(s: Seq<u8>, negotiated: Option<u16>)
    requires
        parse_server_extensions(s, negotiated) is Ok,
    ensures
        ({
            let (exts, v) = parse_server_extensions(s, negotiated)->Ok_0;
            &&& forall|i: int|
                0 <= i < exts.len() && (#[trigger] exts[i]).ext_type == 0x002b ==> {
                    &&& negotiated is None
                    &&& exts[i].data.len() == 2
                    &&& v == Some(u16_at(exts[i].data, 0))
                }
            &&& (forall|i: int| 0 <= i < exts.len() ==> (#[trigger] exts[i]).ext_type != 0x002b)
                ==> v == negotiated
        }),
    decreases s.len(),
{
    if s.len() > 0 {
        let n: int = u16_at(s, 2) as int;
        let t = u16_at(s, 0);
        let data = s.subrange(4, 4 + n);
        let next = if t == supported_versions_type() {
            Some(u16_at(data, 0))
        } else {
            negotiated
        };
        let tail = s.subrange(4 + n, s.len() as int);
        lemma_server_extensions_version(tail, next);
        let (rest, v) = parse_server_extensions(tail, next)->Ok_0;
        let exts = parse_server_extensions(s, negotiated)->Ok_0.0;
        assert(exts == seq![ExtensionModel { ext_type: t, data }] + rest);
        assert forall|i: int|
            0 <= i < exts.len() && (#[trigger] exts[i]).ext_type == 0x002b implies {
                &&& negotiated is None
                &&& exts[i].data.len() == 2
                &&& v == Some(u16_at(exts[i].data, 0))
            } by {
            if i > 0 {
                assert(exts[i] == rest[i - 1]);
                if t == 0x002b {
                    assert(false);
                }
            }
        }
        if forall|i: int| 0 <= i < exts.len() ==> (#[trigger] exts[i]).ext_type != 0x002b {
            assert(exts[0].ext_type != 0x002b);
            assert forall|i: int| 0 <= i < rest.len() implies (#[trigger] rest[i]).ext_type
                != 0x002b by {
                assert(exts[i + 1] == rest[i]);
            }
        }
    }
}

/// The negotiated version of a parsed `ServerHello` is the two-byte value
/// of its `supported_versions` extension, wherever that extension stands
/// among the extensions; without one it is the legacy version.
pub proof fn law_server_hello_negotiated_version(b: Seq<u8>)
    requires
        parse_server_hello(b) is Ok,
    ensures
        ({
            let m = parse_server_hello(b)->Ok_0;
            &&& forall|i: int|
                0 <= i < m.extensions.len() && (#[trigger] m.extensions[i]).ext_type == 0x002b
                    ==> m.extensions[i].data.len() == 2 && m.tls_version == u16_at(
                    m.extensions[i].data,
                    0,
                )
            &&& (forall|i: int|
                0 <= i < m.extensions.len() ==> (#[trigger] m.extensions[i]).ext_type != 0x002b)
                ==> m.tls_version == m.legacy_version
        }),
{
    let m = parse_server_hello(b)->Ok_0;
    let p: int = 35 + b[34];
    let r: int = p + 3;
    assert(m.legacy_version == u16_at(b, 0));
    if r != b.len() {
        let n: int = u16_at(b, r) as int;
        let block = b.subrange(r + 2, r + 2 + n);
        assert(parse_server_extensions(block, None) is Ok);
        lemma_server_extensions_version(block, None);
        let (exts, v) = parse_server_extensions(block, None)->Ok_0;
        assert(m.extensions == exts);
        assert(m.tls_version == match v {
            Some(x) => x,
            None => u16_at(b, 0),
        });
    } else {
        assert(m.extensions.len() == 0);
        assert(m.tls_version == u16_at(b, 0));
    }
}

/// A complete `ServerHello` message at the front of the decoder's buffer is
/// decoded whatever bytes follow it, and the buffer is then emptied.
pub proof fn law_decoder_step_reads_message_before_following_bytes(
    body: Seq<u8>,
    m: ServerHelloModel,
    rest: Seq<u8>,
)
    requires
        parse_server_hello(body) == Ok::<ServerHelloModel, Error>(m),
        body.len() <= 0xff_ffff,
    ensures
        decoder_step(
            crate::tls::encode_handshake(crate::tls::HandshakeModel { msg_type: 2, body }) + rest,
        ) == (Ok::<Option<ServerHelloModel>, Error>(Some(m)), Seq::<u8>::empty()),
{
    let h = crate::tls::encode_handshake(crate::tls::HandshakeModel { msg_type: 2, body });
    let buf = h + rest;
    crate::wire::lemma_be24_round_trip(body.len() as int);
    assert(buf[0] == 2);
    assert(buf[1] == h[1] && buf[2] == h[2] && buf[3] == h[3]);
    assert(be24_value(buf[1], buf[2], buf[3]) == body.len());
    assert(buf.subrange(4, 4 + body.len() as int) =~= body);
}

/// A `ServerHello` whose first ALPN extension names one protocol, as a
/// list length, the protocol's length and its UTF-8 bytes, selects that
/// protocol.
pub proof fn law_selected_alpn_names_the_protocol(m: ServerHelloModel, protocol: Seq<u8>)
    requires
        1 <= protocol.len() <= 0xff,
        valid_utf8(protocol),
        find_extension(m.extensions, 0x0010) matches Some(e) && e.data == crate::wire::be16(
            protocol.len() + 1int,
        ) + seq![protocol.len() as u8] + protocol,
    ensures
        selected_alpn(m) == Ok::<Option<Seq<u8>>, Error>(Some(protocol)),
{
    let d = find_extension(m.extensions, 0x0010)->Some_0.data;
    assert(u16_at(d, 0) == protocol.len() + 1);
    assert(d[2] == protocol.len());
    assert(d.subrange(3, 3 + protocol.len() as int) =~= protocol);
}

/// Incrementally reassembles a `ServerHello` from TLS records.
#[derive(Debug)]
pub struct ServerHelloDecoder {
    buffer: Vec<u8>,
}

impl View for ServerHelloDecoder {
    type V = Seq<u8>;

    closed spec fn view(&self) -> Seq<u8> {
        self.buffer@
    }
}

impl Default for ServerHelloDecoder {
    fn default() -> (r: Self)
        ensures
            r@ == Seq::<u8>::empty(),
    {
        Self::new()
    }
}

impl ServerHelloDecoder {
    /// Creates a decoder with nothing buffered.
    pub fn new() -> (r: Self)
        ensures
            r@ == Seq::<u8>::empty(),
    {
        Self { buffer: Vec::new() }
    }

    /// Hands one record to the decoder.
    ///
    /// Records that are not handshake records are ignored. A handshake
    /// record's payload is buffered; once the buffer holds a complete
    /// `ServerHello` message it is parsed, returned, and the buffer emptied.
    ///
    /// # Errors
    ///
    /// Returns [`Error::Malformed`] if the buffered handshake message is not
    /// a `ServerHello`, and the error of [`TlsServerHello::try_from_bytes`]
    /// if the complete message does not parse.
    pub fn push_record(&mut self, record: &TlsRecord<'_>) -> (r: Result<
        Option<TlsServerHello>,
        Error,
    >)
        ensures
            final(self)@ == decoder_push(old(self)@, record@).1,
            match r {
                Ok(Some(h)) => decoder_push(old(self)@, record@).0 == Ok::<
                    Option<ServerHelloModel>,
                    Error,
                >(Some(h@)),
                Ok(None) => decoder_push(old(self)@, record@).0 == Ok::<
                    Option<ServerHelloModel>,
                    Error,
                >(None),
                Err(e) => decoder_push(old(self)@, record@).0 == Err::<
                    Option<ServerHelloModel>,
                    Error,
                >(e),
            },
    {
        if record.content_type().as_u8() != 22 {
            return Ok(None);
        }
        let ghost old_buffer = self.buffer@;
        self.buffer.extend_from_slice(record.payload());
        assert(self.buffer@ =~= old_buffer + record@.payload);
        self.try_parse()
    }

    fn try_parse(&mut self) -> (r: Result<Option<TlsServerHello>, Error>)
        ensures
            final(self)@ == decoder_step(old(self)@).1,
            match r {
                Ok(Some(h)) => decoder_step(old(self)@).0 == Ok::<
                    Option<ServerHelloModel>,
                    Error,
                >(Some(h@)),
                Ok(None) => decoder_step(old(self)@).0 == Ok::<Option<ServerHelloModel>, Error>(
                    None,
                ),
                Err(e) => decoder_step(old(self)@).0 == Err::<Option<ServerHelloModel>, Error>(e),
            },
    {
        if self.buffer.len() < HANDSHAKE_HEADER_LEN {
            return Ok(None);
        }
        let server_hello = {
            let mut reader = TlsReader::new(self.buffer.as_slice());
            let handshake_type = TlsHandshakeType(reader.read_u8()?);
            if handshake_type.as_u8() != 2 {
                return Err(Error::Malformed("expected ServerHello"));
            }
            let body_len = reader.read_u24()?;
            let total_len = match HANDSHAKE_HEADER_LEN.checked_add(body_len) {
                Some(n) => n,
                None => return Err(Error::LengthOverflow { max: usize::MAX, actual: usize::MAX }),
            };
            if self.buffer.len() < total_len {
                return Ok(None);
            }
            TlsServerHello::try_from_bytes(&self.buffer.as_slice()[HANDSHAKE_HEADER_LEN..total_len])?
        };
        self.buffer.clear();
        Ok(Some(server_hello))
    }
}

/// What the decoder answers, how many bytes of `received` it takes and what
/// it keeps buffered, when it is handed the records at the front of
/// `received` with `buf` buffered: complete records are taken one by one
/// until one completes a `ServerHello` or fails; an incomplete record at the
/// end is left for later.
#[verifier::opaque]
pub open spec fn feed_records(buf: Seq<u8>, received: Seq<u8>) -> (
    Result<Option<ServerHelloModel>, Error>,
    int,
    Seq<u8>,
)
    decreases received.len(),
{
    match parse_record(received) {
        Err(_) => (Ok(None), 0, buf),
        Ok((record, len)) => {
            let (answer, kept) = decoder_push(buf, record);
            match answer {
                Ok(None) => {
                    if 0 < len <= received.len() {
                        let (rest, used, last) = feed_records(
                            kept,
                            received.subrange(len, received.len() as int),
                        );
                        (rest, len + used, last)
                    } else {
                        (Ok(None), len, kept)
                    }
                },
                _ => (answer, len, kept),
            }
        },
    }
}

/// One step of [`feed_records`]: an incomplete record is left alone; a
/// complete one is handed to the decoder, and the rest follows if the
/// decoder answered nothing.
proof fn lemma_feed_records_step(buf: Seq<u8>, received: Seq<u8>)
    ensures
        match parse_record(received) {
            Err(_) => feed_records(buf, received) == (
                Ok::<Option<ServerHelloModel>, Error>(None),
                0int,
                buf,
            ),
            Ok((record, len)) => {
                &&& 0 < len <= received.len()
                &&& decoder_push(buf, record).0 matches Ok(None) ==> {
                    let (a, u, k) = feed_records(
                        decoder_push(buf, record).1,
                        received.subrange(len, received.len() as int),
                    );
                    feed_records(buf, received) == (a, len + u, k)
                }
                &&& !(decoder_push(buf, record).0 matches Ok(None)) ==> feed_records(buf, received)
                    == (decoder_push(buf, record).0, len, decoder_push(buf, record).1)
            },
        },
{
    reveal(feed_records);
}

/// Bytes may arrive in pieces: handing the decoder `a` and then what it left
/// of `a` followed by `b` gives what handing it `a + b` at once gives. Once
/// `a` alone completes a `ServerHello` or fails, what follows does not
/// matter.
pub proof fn law_feed_records_in_pieces(buf: Seq<u8>, a: Seq<u8>, b: Seq<u8>)
    ensures
        ({
            let (first, used, kept) = feed_records(buf, a);
            if first matches Ok(None) {
                let (last, more, left) = feed_records(kept, a.subrange(used, a.len() as int) + b);
                &&& 0 <= used <= a.len()
                &&& feed_records(buf, a + b) == (last, used + more, left)
            } else {
                feed_records(buf, a + b) == (first, used, kept)
            }
        }),
    decreases a.len(),
{
    lemma_feed_records_step(buf, a);
    lemma_feed_records_step(buf, a + b);
    match parse_record(a) {
        Err(_) => {
            assert(a.subrange(0, a.len() as int) + b =~= a + b);
        },
        Ok((record, len)) => {
            law_record_ignores_following_bytes(a, b);
            let (answer, kept) = decoder_push(buf, record);
            if answer matches Ok(None) {
                let rest = a.subrange(len, a.len() as int);
                assert((a + b).subrange(len, (a + b).len() as int) =~= rest + b);
                law_feed_records_in_pieces(kept, rest, b);
                let (first, used, k1) = feed_records(kept, rest);
                if first matches Ok(None) {
                    assert(rest.subrange(used, rest.len() as int) =~= a.subrange(
                        len + used,
                        a.len() as int,
                    ));
                }
            }
        },
    }
}

impl ServerHelloDecoder {
    /// Hands the decoder the complete records at the front of `received`,
    /// one by one, until one of them completes a `ServerHello`; returns the
    /// number of bytes taken and the `ServerHello`, if any. An incomplete
    /// record at the end is not taken: hand it over again once more bytes
    /// have arrived.
    ///
    /// # Errors
    ///
    /// As [`Self::push_record`], for the first record that fails.
    pub fn push_records(&mut self, received: &[u8]) -> (r: Result<
        (usize, Option<TlsServerHello>),
        Error,
    >)
        ensures
            final(self)@ == feed_records(old(self)@, received@).2,
            match r {
                Ok((n, Some(h))) => {
                    &&& feed_records(old(self)@, received@).0 == Ok::<
                        Option<ServerHelloModel>,
                        Error,
                    >(Some(h@))
                    &&& feed_records(old(self)@, received@).1 == n
                },
                Ok((n, None)) => {
                    &&& feed_records(old(self)@, received@).0 == Ok::<
                        Option<ServerHelloModel>,
                        Error,
                    >(None)
                    &&& feed_records(old(self)@, received@).1 == n
                },
                Err(e) => feed_records(old(self)@, received@).0 == Err::<
                    Option<ServerHelloModel>,
                    Error,
                >(e),
            },
    {
        let mut consumed_bytes: usize = 0;
        let ghost start = old(self)@;
        let mut answer: Result<Option<TlsServerHello>, Error> = Ok(None);
        assert(received@.subrange(0, received@.len() as int) =~= received@);
        while consumed_bytes < received.len()
            invariant_except_break
                consumed_bytes <= received@.len(),
                answer matches Ok(None),
                feed_records(start, received@) == ({
                    let (a, u, k) = feed_records(
                        self@,
                        received@.subrange(consumed_bytes as int, received@.len() as int),
                    );
                    (a, consumed_bytes + u, k)
                }),
            ensures
                consumed_bytes <= received@.len(),
                answer matches Ok(None) ==> {
                    &&& feed_records(start, received@) == ({
                        let (a, u, k) = feed_records(
                            self@,
                            received@.subrange(consumed_bytes as int, received@.len() as int),
                        );
                        (a, consumed_bytes + u, k)
                    })
                    &&& (consumed_bytes == received@.len() || parse_record(
                        received@.subrange(consumed_bytes as int, received@.len() as int),
                    ) is Err)
                },
                !(answer matches Ok(None)) ==> feed_records(start, received@).2 == self@,
                match answer {
                    Ok(Some(h)) => {
                        &&& feed_records(start, received@).0 == Ok::<
                            Option<ServerHelloModel>,
                            Error,
                        >(Some(h@))
                        &&& feed_records(start, received@).1 == consumed_bytes
                    },
                    Ok(None) => true,
                    Err(e) => feed_records(start, received@).0 == Err::<
                        Option<ServerHelloModel>,
                        Error,
                    >(e),
                },
            decreases received@.len() - consumed_bytes,
        {
            let rest = &received[consumed_bytes..received.len()];
            let (record, record_length) = match TlsRecord::try_from_bytes(rest) {
                Ok(parsed) => parsed,
                Err(_) => {
                    assert(rest@ =~= received@.subrange(
                        consumed_bytes as int,
                        received@.len() as int,
                    ));
                    break;
                },
            };
            let ghost before = self@;
            let pushed = self.push_record(&record);
            proof {
                let tail = rest@.subrange(record_length as int, rest@.len() as int);
                assert(tail =~= received@.subrange(
                    consumed_bytes + record_length,
                    received@.len() as int,
                ));
                assert(rest@ =~= received@.subrange(consumed_bytes as int, received@.len() as int));
                lemma_feed_records_step(before, rest@);
            }
            consumed_bytes = consumed_bytes + record_length;
            match pushed {
                Ok(None) => {},
                Ok(Some(hello)) => {
                    answer = Ok(Some(hello));
                    break;
                },
                Err(error) => {
                    answer = Err(error);
                    break;
                },
            }
        }
        proof {
            if answer matches Ok(None) {
                lemma_feed_records_step(
                    self@,
                    received@.subrange(consumed_bytes as int, received@.len() as int),
                );
            }
        }
        match answer {
            Ok(hello) => Ok((consumed_bytes, hello)),
            Err(error) => Err(error),
        }
    }
}

/// A TLS `ServerHello` handshake message.
///
/// `ServerHelloDecoder` removes the TLS record and handshake headers before
/// passing the `ServerHello` body to [`TlsServerHello::try_from_bytes`].
#[derive(Debug)]
pub struct TlsServerHello {
    legacy_version: TlsVersion,
    tls_version: TlsVersion,
    random: [u8; 32],
    session_id: Vec<u8>,
    cipher_suite: TlsCipherSuite,
    extensions: Vec<TlsExtension>,
}

impl View for TlsServerHello {
    type V = ServerHelloModel;

    closed spec fn view(&self) -> ServerHelloModel {
        ServerHelloModel {
            legacy_version: self.legacy_version@,
            tls_version: self.tls_version@,
            random: self.random@,
            session_id: self.session_id@,
            cipher_suite: self.cipher_suite.0,
            extensions: extension_models(self.extensions@),
        }
    }
}

impl TlsServerHello {
    #[verifier::type_invariant]
    spec fn well_formed(self) -> bool {
        server_hello_valid(self@)
    }

    /// Parses a `ServerHello` handshake body.
    ///
    /// The input must begin with the legacy version field; it must not include
    /// the TLS record header or the handshake message header. Use
    /// [`ServerHelloDecoder`] when processing complete TLS records.
    ///
    /// # Errors
    ///
    /// Returns [`Error::UnexpectedEof`] when a declared field extends beyond
    /// the input. Returns [`Error::Malformed`] when the session ID,
    /// compression method, extension block, or `supported_versions` extension
    /// is invalid.
    pub fn try_from_bytes(handshake_body: &[u8]) -> (r: Result<Self, Error>)
        ensures
            match r {
                Ok(h) => {
                    &&& parse_server_hello(handshake_body@) == Ok::<ServerHelloModel, Error>(h@)
                    &&& server_hello_valid(h@)
                },
                Err(e) => parse_server_hello(handshake_body@) == Err::<ServerHelloModel, Error>(e),
            },
    {
        let ghost b = handshake_body@;
        let mut negotiated_version: Option<TlsVersion> = None;
        let mut reader = TlsReader::new(handshake_body);
        let legacy_version = TlsVersion(reader.read_u16()?);
        let random = reader.read_array::<32>()?;
        let session_id_length = reader.read_u8()? as usize;
        if session_id_length > 32 {
            return Err(Error::Malformed("ServerHello session ID exceeds 32 bytes"));
        }
        let session_id = reader.read_bytes(session_id_length)?;
        let ghost p: int = 35 + session_id_length;
        let cipher_suite = TlsCipherSuite(reader.read_u16()?);
        let compression_method = reader.read_u8()?;
        if compression_method != 0 {
            return Err(Error::Malformed("unsupported ServerHello compression method"));
        }
        let ghost r: int = p + 3;
        let mut extensions: Vec<TlsExtension> = Vec::new();
        assert(extension_models(extensions@) =~= Seq::<ExtensionModel>::empty());
        if reader.remaining() > 0 {
            let extensions_length = reader.read_u16()? as usize;
            let extensions_data = reader.read_bytes(extensions_length)?;
            if reader.remaining() != 0 {
                return Err(Error::Malformed("trailing bytes after ServerHello extensions"));
            }
            assert(extensions_data@ =~= b.subrange(r + 2, r + 2 + extensions_length));
            let (parsed, version) = parse_server_extension_list(extensions_data)?;
            extensions = parsed;
            negotiated_version = version;
        }
        let tls_version = match negotiated_version {
            Some(v) => v,
            None => legacy_version,
        };
        let hello = Self {
            legacy_version,
            random,
            tls_version,
            session_id: vstd::slice::slice_to_vec(session_id),
            cipher_suite,
            extensions,
        };
        assert(hello@.random =~= b.subrange(2, 34));
        assert(hello@.session_id =~= b.subrange(35, p));
        Ok(hello)
    }

    /// Returns the legacy version carried in the `ServerHello` body.
    pub fn legacy_version(&self) -> (r: TlsVersion)
        ensures
            r@ == self@.legacy_version,
    {
        self.legacy_version
    }

    /// Returns the negotiated TLS version.
    ///
    /// For TLS 1.3, this is read from the `supported_versions` extension. For
    /// earlier versions, it is the same as [`Self::legacy_version`].
    pub fn tls_version(&self) -> (r: TlsVersion)
        ensures
            r@ == self@.tls_version,
    {
        self.tls_version
    }

    /// Returns the server random value.
    pub fn random(&self) -> (r: &[u8; 32])
        ensures
            r@ == self@.random,
    {
        &self.random
    }

    /// Returns the echoed legacy session ID.
    pub fn session_id(&self) -> (r: &[u8])
        ensures
            r@ == self@.session_id,
    {
        self.session_id.as_slice()
    }

    /// Returns the extensions in wire order.
    pub fn extensions(&self) -> (r: &[TlsExtension])
        ensures
            extension_models(r@) == self@.extensions,
            server_hello_valid(self@),
    {
        proof {
            use_type_invariant(self);
        }
        self.extensions.as_slice()
    }

    /// Returns the extension types in wire order.
    pub fn extension_types(&self) -> (r: Vec<TlsExtensionType>)
        ensures
            r@.len() == self@.extensions.len(),
            forall|i: int| 0 <= i < r@.len() ==> #[trigger] r@[i].0 == self@.extensions[i].ext_type,
    {
        let mut types: Vec<TlsExtensionType> = Vec::new();
        let mut i: usize = 0;
        while i < self.extensions.len()
            invariant
                i <= self.extensions@.len(),
                types@.len() == i,
                forall|j: int| 0 <= j < i ==> #[trigger] types@[j].0 == self@.extensions[j].ext_type,
            decreases self.extensions@.len() - i,
        {
            types.push(self.extensions[i].extension_type());
            i = i + 1;
        }
        types
    }

    /// Returns the cipher suite selected by the server.
    pub fn cipher_suite(&self) -> (r: &TlsCipherSuite)
        ensures
            r.0 == self@.cipher_suite,
    {
        &self.cipher_suite
    }

    /// Returns the raw bytes of the ALPN protocol selected by the server, if
    /// present, checking the extension as [`Self::alpn_protocol`] does.
    pub(crate) fn alpn_protocol_bytes(&self) -> (r: Result<Option<&[u8]>, Error>)
        ensures
            match r {
                Ok(Some(p)) => selected_alpn(self@) == Ok::<Option<Seq<u8>>, Error>(Some(p@)),
                Ok(None) => selected_alpn(self@) == Ok::<Option<Seq<u8>>, Error>(None),
                Err(e) => selected_alpn(self@) == Err::<Option<Seq<u8>>, Error>(e),
            },
    {
        let mut i: usize = 0;
        assert(self@.extensions.skip(0) =~= self@.extensions);
        while i < self.extensions.len()
            invariant
                i <= self.extensions@.len(),
                find_extension(self@.extensions, alpn_type()) == find_extension(
                    self@.extensions.skip(i as int),
                    alpn_type(),
                ),
            decreases self.extensions@.len() - i,
        {
            let extension = &self.extensions[i];
            if extension.extension_type().as_u16() == 0x0010 {
                let extension_data = extension.extension_data();
                let mut reader = TlsReader::new(extension_data);
                let protocol_list_length = reader.read_u16()? as usize;
                if protocol_list_length != reader.remaining() {
                    return Err(Error::Malformed("invalid ALPN protocol list length in ServerHello"));
                }
                let protocol_length = reader.read_u8()? as usize;
                let protocol = reader.read_bytes(protocol_length)?;
                if !reader.is_empty() {
                    return Err(
                        Error::Malformed("ServerHello ALPN extension contains multiple protocols"),
                    );
                }
                if str_from_utf8(protocol).is_none() {
                    return Err(Error::Malformed("ServerHello ALPN protocol is not valid UTF-8"));
                }
                assert(protocol@ =~= extension_data@.subrange(3, 3 + protocol_length as int));
                return Ok(Some(protocol));
            }
            assert(self@.extensions.skip(i as int).drop_first() =~= self@.extensions.skip(i + 1));
            i = i + 1;
        }
        Ok(None)
    }

    /// Returns the ALPN protocol selected by the server, if present.
    ///
    /// # Errors
    ///
    /// Returns [`Error::Malformed`] or [`Error::UnexpectedEof`] if the ALPN
    /// extension is malformed or does not contain exactly one UTF-8 protocol.
    pub fn alpn_protocol(&self) -> (r: Result<Option<&str>, Error>)
        ensures
            match r {
                Ok(Some(p)) => selected_alpn(self@) == Ok::<Option<Seq<u8>>, Error>(
                    Some(p.spec_bytes()),
                ),
                Ok(None) => selected_alpn(self@) == Ok::<Option<Seq<u8>>, Error>(None),
                Err(e) => selected_alpn(self@) == Err::<Option<Seq<u8>>, Error>(e),
            },
    {
        match self.alpn_protocol_bytes()? {
            None => Ok(None),
            Some(protocol) => match str_from_utf8(protocol) {
                Some(text) => Ok(Some(text)),
                None => Err(Error::Malformed("ServerHello ALPN protocol is not valid UTF-8")),
            },
        }
    }
}


/// Parses a `ServerHello` extension block, noting the version its
/// `supported_versions` extension names.
fn parse_server_extension_list(extensions_data: &[u8]) -> (r: Result<
    (Vec<TlsExtension>, Option<TlsVersion>),
    Error,
>)
    ensures
        match r {
            Ok((v, neg)) => {
                &&& parse_server_extensions(extensions_data@, None) == Ok::<
                    (Seq<ExtensionModel>, Option<u16>),
                    Error,
                >((extension_models(v@), option_version(neg)))
                &&& forall|i: int| 0 <= i < v@.len() ==> #[trigger] extension_fits(v@[i]@)
            },
            Err(e) => parse_server_extensions(extensions_data@, None) == Err::<
                (Seq<ExtensionModel>, Option<u16>),
                Error,
            >(e),
        },
{
    let mut negotiated_version: Option<TlsVersion> = None;
    let mut extensions: Vec<TlsExtension> = Vec::new();
    let mut extensions_reader = TlsReader::new(extensions_data);
    assert(extensions_reader.unread() =~= extensions_data@);
    assert(extension_models(extensions@) =~= Seq::<ExtensionModel>::empty());
    while extensions_reader.remaining() > 0
        invariant
            extensions_reader.data() == extensions_data@,
            extensions_reader.valid(),
            forall|i: int|
                0 <= i < extensions@.len() ==> #[trigger] extension_fits(
                    extensions@[i]@,
                ),
            parse_server_extensions(extensions_data@, None) == match parse_server_extensions(
                extensions_reader.unread(),
                option_version(negotiated_version),
            ) {
                Ok((rest, v)) => Ok((extension_models(extensions@) + rest, v)),
                Err(e) => Err(e),
            },
        decreases extensions_reader.data().len() - extensions_reader.pos(),
    {
        let ghost s = extensions_reader.unread();
        let extension_type = TlsExtensionType(extensions_reader.read_u16()?);
        assert(u16_at(s, 0) == extension_type.0);
        let extension_length = extensions_reader.read_u16()? as usize;
        assert(u16_at(s, 2) == extension_length);
        let extension_data = extensions_reader.read_bytes(extension_length)?;
        assert(extension_data@ =~= s.subrange(4, 4 + extension_length as int));
        if extension_type.0 == 0x002b {
            if negotiated_version.is_some() {
                return Err(
                    Error::Malformed("duplicate supported_versions extension in ServerHello"),
                );
            }
            if extension_data.len() != 2 {
                return Err(
                    Error::Malformed("invalid supported_versions extension in ServerHello"),
                );
            }
            negotiated_version = Some(
                TlsVersion((extension_data[0] as u16) * 256 + (extension_data[1] as u16)),
            );
        }
        let ext = TlsExtension::new(
            extension_type,
            vstd::slice::slice_to_vec(extension_data),
        )?;
        let ghost before = extension_models(extensions@);
        extensions.push(ext);
        proof {
            assert(extensions_reader.unread() =~= s.subrange(
                4 + extension_length as int,
                s.len() as int,
            ));
            assert(extension_models(extensions@) =~= before + seq![ext@]);
            match parse_server_extensions(
                extensions_reader.unread(),
                option_version(negotiated_version),
            ) {
                Ok((rest, v)) => {
                    assert(before + (seq![ext@] + rest) =~= (before + seq![ext@]) + rest);
                },
                Err(_) => {},
            }
        }
    }
    assert(extensions_reader.unread() =~= Seq::<u8>::empty());
    assert(extension_models(extensions@) + Seq::<ExtensionModel>::empty()
        =~= extension_models(extensions@));
        Ok((extensions, negotiated_version))
}

/// The 16-bit value of an optional version.
pub open spec fn option_version(v: Option<TlsVersion>) -> Option<u16> {
    match v {
        Some(x) => Some(x@),
        None => None,
    }
}

} // verus!
