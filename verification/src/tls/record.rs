use vstd::prelude::*;

use crate::error::{eof, overflow, Error};
use crate::tls::{
    TlsContentType, TlsReader, TlsVersion, MAX_TLS_PLAINTEXT_LEN, TLS_RECORD_HEADER_LEN,
};
use crate::wire::{be16, u16_at, u16_to_be};

verus! {

/// What a TLS record holds: content type, legacy record version, payload.
pub struct RecordModel {
    pub content_type: u8,
    pub legacy_version: u16,
    pub payload: Seq<u8>,
}

/// The first record of `b` and the number of bytes it spans, or the error
/// its parse reports.
pub open spec fn parse_record(b: Seq<u8>) -> Result<(RecordModel, int), Error> {
    if b.len() < 5 {
        Err(eof(5, b.len() as int))
    } else {
        let len: int = 5 + u16_at(b, 3) as int;
        if b.len() < len {
            Err(eof(len, b.len() as int))
        } else {
            Ok(
                (
                    RecordModel {
                        content_type: b[0],
                        legacy_version: u16_at(b, 1),
                        payload: b.subrange(5, len),
                    },
                    len,
                ),
            )
        }
    }
}

/// The wire form of a record: header followed by the payload.
pub open spec fn encode_record(r: RecordModel) -> Seq<u8> {
    seq![r.content_type] + be16(r.legacy_version as int) + be16(r.payload.len() as int) + r.payload
}

/// Decoding an encoded record gives it back, with its length, whatever follows it.
pub proof fn law_record_round_trip(r: RecordModel, rest: Seq<u8>)
    requires
        r.payload.len() <= 0xffff,
    ensures
        parse_record(encode_record(r) + rest) == Ok::<(RecordModel, int), Error>(
            (r, encode_record(r).len() as int),
        ),
{
    let b = encode_record(r) + rest;
    assert(b[0] == r.content_type);
    assert(u16_at(b, 1) == r.legacy_version);
    assert(u16_at(b, 3) == r.payload.len());
    assert(b.subrange(5, 5 + r.payload.len() as int) =~= r.payload);
}

/// A record parse reads only the record's own bytes: whatever follows a
/// complete record changes neither the record nor the length consumed.
pub proof fn law_record_ignores_following_bytes(b: Seq<u8>, rest: Seq<u8>)
    requires
        parse_record(b) is Ok,
    ensures
        parse_record(b + rest) == parse_record(b),
{
    let len: int = 5 + u16_at(b, 3) as int;
    assert(u16_at(b + rest, 1) == u16_at(b, 1));
    assert(u16_at(b + rest, 3) == u16_at(b, 3));
    assert((b + rest).subrange(5, len) =~= b.subrange(5, len));
}

/// A borrowed TLS record.
///
/// ```text
/// +--------------------------------------------------+
/// | Content Type           1 byte                    |
/// | Legacy Record Version  2 bytes                   |
/// | Payload Length         2 bytes                   |
/// +--------------------------------------------------+
/// | Payload                N bytes                   |
/// +--------------------------------------------------+
/// ```
///
/// The payload borrows from the encoded input, so parsing a record does not
/// allocate or copy its contents.
pub struct TlsRecord<'a> {
    content_type: TlsContentType,
    legacy_version: TlsVersion,
    payload: &'a [u8],
}

impl<'a> View for TlsRecord<'a> {
    type V = RecordModel;

    closed spec fn view(&self) -> RecordModel {
        RecordModel {
            content_type: self.content_type@,
            legacy_version: self.legacy_version@,
            payload: self.payload@,
        }
    }
}

impl<'a> TlsRecord<'a> {
    /// Creates a record that borrows `payload`.
    pub fn new(content_type: TlsContentType, legacy_version: TlsVersion, payload: &'a [u8]) -> (r:
        Self)
        ensures
            r@ == (RecordModel {
                content_type: content_type@,
                legacy_version: legacy_version@,
                payload: payload@,
            }),
    {
        Self { content_type, legacy_version, payload }
    }

    /// Parses the first complete TLS record in `bytes`.
    ///
    /// The returned `usize` is the number of bytes consumed by the record.
    /// Any bytes after that offset belong to subsequent records and are not
    /// inspected.
    ///
    /// # Errors
    ///
    /// Returns [`Error::UnexpectedEof`] when the record header is incomplete or
    /// the declared payload is not fully available. Returns
    /// [`Error::LengthOverflow`] if the calculated record length overflows
    /// `usize`.
    pub fn try_from_bytes(bytes: &'a [u8]) -> (r: Result<(Self, usize), Error>)
        ensures
            match r {
                Ok((record, n)) => parse_record(bytes@) == Ok::<(RecordModel, int), Error>(
                    (record@, n as int),
                ),
                Err(e) => parse_record(bytes@) == Err::<(RecordModel, int), Error>(e),
            },
    {
        if bytes.len() < TLS_RECORD_HEADER_LEN {
            return Err(Error::UnexpectedEof { needed: TLS_RECORD_HEADER_LEN, remaining: bytes.len() });
        }
        let mut reader = TlsReader::new(bytes);
        let content_type = TlsContentType(reader.read_u8()?);
        let legacy_version = TlsVersion(reader.read_u16()?);
        let payload_len = reader.read_u16()? as usize;
        let record_len = match TLS_RECORD_HEADER_LEN.checked_add(payload_len) {
            Some(n) => n,
            None => return Err(Error::LengthOverflow { max: usize::MAX, actual: usize::MAX }),
        };
        if bytes.len() < record_len {
            return Err(Error::UnexpectedEof { needed: record_len, remaining: bytes.len() });
        }
        let payload = &bytes[TLS_RECORD_HEADER_LEN..record_len];
        Ok((Self { content_type, legacy_version, payload }, record_len))
    }

    /// Encodes this record, header first.
    ///
    /// # Errors
    ///
    /// Returns [`Error::LengthOverflow`] if the payload is longer than the
    /// 2^14 bytes one TLSPlaintext record may carry.
    pub fn try_to_bytes(&self) -> (r: Result<Vec<u8>, Error>)
        ensures
            match r {
                Ok(b) => {
                    &&& self@.payload.len() <= MAX_TLS_PLAINTEXT_LEN
                    &&& b@ == encode_record(self@)
                },
                Err(e) => {
                    &&& self@.payload.len() > MAX_TLS_PLAINTEXT_LEN
                    &&& e == overflow(MAX_TLS_PLAINTEXT_LEN as int, self@.payload.len() as int)
                },
            },
    {
        let len = self.payload.len();
        if len > MAX_TLS_PLAINTEXT_LEN {
            return Err(Error::LengthOverflow { max: MAX_TLS_PLAINTEXT_LEN, actual: len });
        }
        let mut bytes = Vec::with_capacity(TLS_RECORD_HEADER_LEN + len);
        bytes.push(self.content_type.as_u8());
        bytes.extend_from_slice(&self.legacy_version.to_be_bytes());
        bytes.extend_from_slice(&u16_to_be(len as u16));
        bytes.extend_from_slice(self.payload);
        assert(bytes@ =~= encode_record(self@));
        Ok(bytes)
    }

    /// Returns the record content type.
    pub fn content_type(&self) -> (r: &TlsContentType)
        ensures
            r@ == self@.content_type,
    {
        &self.content_type
    }

    /// Returns the legacy record-layer TLS version.
    pub fn legacy_version(&self) -> (r: &TlsVersion)
        ensures
            r@ == self@.legacy_version,
    {
        &self.legacy_version
    }

    /// Returns the record payload without its five-byte header.
    pub fn payload(&self) -> (r: &'a [u8])
        ensures
            r@ == self@.payload,
    {
        self.payload
    }
}

} // verus!
