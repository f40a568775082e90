use vstd::prelude::*;

use crate::text::{ascii_chars, ascii_string, decimal, lemma_decimal_ascii, push_decimal};

verus! {

/// Errors that can occur while constructing, encoding, or parsing network
/// protocol data.
#[derive(Debug)]
pub enum Error {
    /// An encoded value is too large for its length field or format limit.
    LengthOverflow {
        /// Maximum supported length, in bytes.
        max: usize,
        /// Length that was requested or calculated, in bytes.
        actual: usize,
    },
    /// The input ended before a complete field or message could be read.
    UnexpectedEof {
        /// Number of bytes required by the attempted read.
        needed: usize,
        /// Number of unread bytes that were available.
        remaining: usize,
    },
    /// The data violates an expected format or constraint.
    Malformed(
        /// Static description of the violated constraint.
        &'static str,
    ),
}

/// The error a read reports when `needed` bytes were asked for and only
/// `remaining` were left.
pub open spec fn eof(needed: int, remaining: int) -> Error {
    Error::UnexpectedEof { needed: needed as usize, remaining: remaining as usize }
}

/// The error reported when a length of `actual` exceeds the limit `max`.
pub open spec fn overflow(max: int, actual: int) -> Error {
    Error::LengthOverflow { max: max as usize, actual: actual as usize }
}

/// The message describing an error: the limit and the length for an
/// overflow, the bytes needed and left for an early end, and the
/// description of a violated constraint.
pub open spec fn error_message(e: Error) -> Seq<char> {
    match e {
        Error::LengthOverflow { max, actual } => "length exceeds maximum: "@ + ascii_chars(
            decimal(actual as nat),
        ) + " > "@ + ascii_chars(decimal(max as nat)),
        Error::UnexpectedEof { needed, remaining } => "unexpected end of data: needed "@
            + ascii_chars(decimal(needed as nat)) + " bytes, but only "@ + ascii_chars(
            decimal(remaining as nat),
        ) + " remain"@,
        Error::Malformed(message) => "malformed data: "@ + message@,
    }
}

/// The decimal form of `n` as text.
fn decimal_text(n: usize) -> (r: String)
    ensures
        r@ == ascii_chars(decimal(n as nat)),
{
    let mut digits: Vec<u8> = Vec::new();
    push_decimal(&mut digits, n as u64);
    proof {
        lemma_decimal_ascii(n as nat);
        assert(digits@ =~= decimal(n as nat));
    }
    ascii_string(digits.as_slice())
}

impl Error {
    /// Describes the error in words.
    pub fn to_string(&self) -> (r: String)
        ensures
            r@ == error_message(*self),
    {
        let mut text = String::new();
        match self {
            Error::LengthOverflow { max, actual } => {
                text.append("length exceeds maximum: ");
                text.append(decimal_text(*actual).as_str());
                text.append(" > ");
                text.append(decimal_text(*max).as_str());
            },
            Error::UnexpectedEof { needed, remaining } => {
                text.append("unexpected end of data: needed ");
                text.append(decimal_text(*needed).as_str());
                text.append(" bytes, but only ");
                text.append(decimal_text(*remaining).as_str());
                text.append(" remain");
            },
            Error::Malformed(message) => {
                text.append("malformed data: ");
                text.append(message);
            },
        }
        text
    }
}

} // verus!
