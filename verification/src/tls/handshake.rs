use vstd::prelude::*;

use crate::error::{eof, overflow, Error};
use crate::primitives::U24;
use crate::tls::{TlsHandshakeType, TlsReader, HANDSHAKE_HEADER_LEN};
use crate::wire::{be24, be24_value};

verus! {

/// What a handshake message holds: its type and its body.
pub struct HandshakeModel {
    pub msg_type: u8,
    pub body: Seq<u8>,
}

/// The first handshake message of `b` and the number of bytes it spans, or
/// the error its parse reports.
pub open spec fn parse_handshake(b: Seq<u8>) -> Result<(HandshakeModel, int), Error> {
    if b.len() < 4 {
        Err(eof(4, b.len() as int))
    } else {
        let len: int = 4 + be24_value(b[1], b[2], b[3]) as int;
        if b.len() < len {
            Err(eof(len, b.len() as int))
        } else {
            Ok((HandshakeModel { msg_type: b[0], body: b.subrange(4, len) }, len))
        }
    }
}

/// The wire form of a handshake message: type, 24-bit body length, body.
pub open spec fn encode_handshake(h: HandshakeModel) -> Seq<u8> {
    seq![h.msg_type] + be24(h.body.len() as int) + h.body
}

/// Decoding an encoded handshake message gives it back, with its length,
/// whatever follows it.
pub proof fn law_handshake_round_trip(h: HandshakeModel, rest: Seq<u8>)
    requires
        h.body.len() <= 0xff_ffff,
    ensures
        parse_handshake(encode_handshake(h) + rest) == Ok::<(HandshakeModel, int), Error>(
            (h, encode_handshake(h).len() as int),
        ),
{
    let b = encode_handshake(h) + rest;
    assert(b[0] == h.msg_type);
    assert(be24_value(b[1], b[2], b[3]) == h.body.len());
    assert(b.subrange(4, 4 + h.body.len() as int) =~= h.body);
}

/// A borrowed TLS handshake message.
///
/// ```text
/// +----------------------------------+
/// | Handshake Type      1 byte       |
/// | Body Length         3 bytes      |
/// | Body                N bytes      |
/// +----------------------------------+
/// ```
pub struct TlsHandshake<'a> {
    handshake_type: TlsHandshakeType,
    body: &'a [u8],
}

impl<'a> View for TlsHandshake<'a> {
    type V = HandshakeModel;

    closed spec fn view(&self) -> HandshakeModel {
        HandshakeModel { msg_type: self.handshake_type@, body: self.body@ }
    }
}

impl<'a> TlsHandshake<'a> {
    /// Creates a handshake message that borrows `body`.
    pub fn new(handshake_type: TlsHandshakeType, body: &'a [u8]) -> (r: Self)
        ensures
            r@ == (HandshakeModel { msg_type: handshake_type@, body: body@ }),
    {
        Self { handshake_type, body }
    }

    /// Parses the first complete TLS handshake message in `bytes`.
    ///
    /// The returned `usize` is the number of bytes consumed. Any remaining
    /// bytes may contain subsequent handshake messages.
    ///
    /// # Errors
    ///
    /// Returns [`Error::UnexpectedEof`] if the header or declared body is
    /// incomplete. Returns [`Error::LengthOverflow`] if the total message
    /// length overflows `usize`.
    pub fn try_from_bytes(bytes: &'a [u8]) -> (r: Result<(Self, usize), Error>)
        ensures
            match r {
                Ok((h, n)) => parse_handshake(bytes@) == Ok::<(HandshakeModel, int), Error>(
                    (h@, n as int),
                ),
                Err(e) => parse_handshake(bytes@) == Err::<(HandshakeModel, int), Error>(e),
            },
    {
        if bytes.len() < HANDSHAKE_HEADER_LEN {
            return Err(Error::UnexpectedEof { needed: HANDSHAKE_HEADER_LEN, remaining: bytes.len() });
        }
        let mut reader = TlsReader::new(bytes);
        let handshake_type = TlsHandshakeType(reader.read_u8()?);
        let body_length = reader.read_u24()?;
        let message_length = match HANDSHAKE_HEADER_LEN.checked_add(body_length) {
            Some(n) => n,
            None => return Err(Error::LengthOverflow { max: usize::MAX, actual: usize::MAX }),
        };
        if bytes.len() < message_length {
            return Err(Error::UnexpectedEof { needed: message_length, remaining: bytes.len() });
        }
        Ok((Self { handshake_type, body: &bytes[HANDSHAKE_HEADER_LEN..message_length] }, message_length))
    }

    /// Encodes this handshake message, including its four-byte header.
    ///
    /// # Errors
    ///
    /// Returns [`Error::LengthOverflow`] if the body exceeds the maximum value
    /// representable by the 24-bit handshake length field.
    pub fn try_to_bytes(&self) -> (r: Result<Vec<u8>, Error>)
        ensures
            match r {
                Ok(b) => {
                    &&& self@.body.len() <= U24::MAX
                    &&& b@ == encode_handshake(self@)
                },
                Err(e) => {
                    &&& self@.body.len() > U24::MAX
                    &&& e == overflow(U24::MAX as int, self@.body.len() as int)
                },
            },
    {
        let body_length = U24::new(self.body.len())?;
        let mut bytes = Vec::with_capacity(HANDSHAKE_HEADER_LEN + self.body.len());
        bytes.push(self.handshake_type.as_u8());
        bytes.extend_from_slice(&body_length.to_be_bytes());
        bytes.extend_from_slice(self.body);
        assert(bytes@ =~= encode_handshake(self@));
        Ok(bytes)
    }

    /// Returns the handshake message type.
    pub fn handshake_type(&self) -> (r: TlsHandshakeType)
        ensures
            r@ == self@.msg_type,
    {
        self.handshake_type
    }

    /// Returns the handshake body without its four-byte header.
    pub fn body(&self) -> (r: &'a [u8])
        ensures
            r@ == self@.body,
    {
        self.body
    }
}

} // verus!
