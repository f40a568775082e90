use vstd::prelude::*;

use crate::error::{eof, Error};
use crate::wire::{be24_value, u16_at};

verus! {

/// A bounds-checked reader for TLS wire-format data.
///
/// `TlsReader` advances through a borrowed byte slice and decodes unsigned
/// integers in network byte order. Reads never advance the cursor when there
/// is not enough input available.
pub struct TlsReader<'a> {
    bytes: &'a [u8],
    position: usize,
}

impl<'a> TlsReader<'a> {
    #[verifier::type_invariant]
    spec fn in_bounds(self) -> bool {
        self.position <= self.bytes@.len()
    }

    /// The whole input the reader walks over.
    pub closed spec fn data(&self) -> Seq<u8> {
        self.bytes@
    }

    /// The offset of the next unread byte.
    pub closed spec fn pos(&self) -> int {
        self.position as int
    }

    /// The bytes not read yet.
    pub open spec fn unread(&self) -> Seq<u8> {
        self.data().subrange(self.pos(), self.data().len() as int)
    }

    /// The reader's cursor lies within its input.
    pub open spec fn valid(&self) -> bool {
        0 <= self.pos() <= self.data().len()
    }

    /// Creates a reader positioned at the beginning of `bytes`.
    pub fn new(bytes: &'a [u8]) -> (r: Self)
        ensures
            r.data() == bytes@,
            r.pos() == 0,
            r.valid(),
    {
        Self { bytes, position: 0 }
    }

    /// Returns the number of unread bytes.
    pub fn remaining(&self) -> (n: usize)
        ensures
            self.valid(),
            n == self.data().len() - self.pos(),
            n == self.unread().len(),
    {
        proof {
            use_type_invariant(self);
        }
        self.bytes.len() - self.position
    }

    /// Returns `true` when no unread bytes remain.
    pub fn is_empty(&self) -> (b: bool)
        ensures
            self.valid(),
            b == (self.pos() == self.data().len()),
    {
        self.remaining() == 0
    }

    /// Reads and returns the next `len` bytes without copying them.
    ///
    /// # Errors
    ///
    /// Returns [`Error::UnexpectedEof`] if fewer than `len` bytes remain. The
    /// reader position is unchanged when this happens.
    pub fn read_bytes(&mut self, len: usize) -> (r: Result<&'a [u8], Error>)
        ensures
            final(self).data() == old(self).data(),
            final(self).valid(),
            old(self).valid(),
            match r {
                Ok(s) => {
                    &&& len <= old(self).unread().len()
                    &&& s@ == old(self).data().subrange(old(self).pos(), old(self).pos() + len)
                    &&& final(self).pos() == old(self).pos() + len
                },
                Err(e) => {
                    &&& len > old(self).unread().len()
                    &&& e == eof(len as int, old(self).unread().len() as int)
                    &&& final(self).pos() == old(self).pos()
                },
            },
    {
        proof {
            use_type_invariant(&*self);
        }
        let remaining = self.remaining();
        if remaining < len {
            return Err(Error::UnexpectedEof { needed: len, remaining });
        }
        let start = self.position;
        let total = self.bytes.len();
        assert(start + len <= total);
        let end = start + len;
        self.position = end;
        let bytes: &'a [u8] = self.bytes;
        Ok(&bytes[start..end])
    }

    /// Reads the next `N` bytes into a fixed-size array.
    ///
    /// # Errors
    ///
    /// Returns [`Error::UnexpectedEof`] if fewer than `N` bytes remain. The
    /// reader position is unchanged when this happens.
    pub fn read_array<const N: usize>(&mut self) -> (r: Result<[u8; N], Error>)
        ensures
            final(self).data() == old(self).data(),
            final(self).valid(),
            old(self).valid(),
            match r {
                Ok(a) => {
                    &&& N <= old(self).unread().len()
                    &&& a@ == old(self).data().subrange(old(self).pos(), old(self).pos() + N)
                    &&& final(self).pos() == old(self).pos() + N
                },
                Err(e) => {
                    &&& N > old(self).unread().len()
                    &&& e == eof(N as int, old(self).unread().len() as int)
                    &&& final(self).pos() == old(self).pos()
                },
            },
    {
        let bytes = self.read_bytes(N)?;
        let mut out = [0u8; N];
        let mut i: usize = 0;
        while i < N
            invariant
                bytes@.len() == N,
                out@.len() == N,
                i <= N,
                forall|j: int| 0 <= j < i ==> out@[j] == bytes@[j],
            decreases N - i,
        {
            out[i] = bytes[i];
            i = i + 1;
        }
        assert(out@ =~= bytes@);
        Ok(out)
    }

    /// Reads one unsigned byte.
    ///
    /// # Errors
    ///
    /// Returns [`Error::UnexpectedEof`] if no byte remains.
    pub fn read_u8(&mut self) -> (r: Result<u8, Error>)
        ensures
            final(self).data() == old(self).data(),
            final(self).valid(),
            old(self).valid(),
            match r {
                Ok(b) => {
                    &&& 1 <= old(self).unread().len()
                    &&& b == old(self).data()[old(self).pos()]
                    &&& final(self).pos() == old(self).pos() + 1
                },
                Err(e) => {
                    &&& old(self).unread().len() == 0
                    &&& e == eof(1, 0)
                    &&& final(self).pos() == old(self).pos()
                },
            },
    {
        let bytes = self.read_bytes(1)?;
        Ok(bytes[0])
    }

    /// Reads a big-endian 16-bit unsigned integer.
    ///
    /// # Errors
    ///
    /// Returns [`Error::UnexpectedEof`] if fewer than two bytes remain.
    pub fn read_u16(&mut self) -> (r: Result<u16, Error>)
        ensures
            final(self).data() == old(self).data(),
            final(self).valid(),
            old(self).valid(),
            match r {
                Ok(v) => {
                    &&& 2 <= old(self).unread().len()
                    &&& v == u16_at(old(self).data(), old(self).pos())
                    &&& final(self).pos() == old(self).pos() + 2
                },
                Err(e) => {
                    &&& old(self).unread().len() < 2
                    &&& e == eof(2, old(self).unread().len() as int)
                    &&& final(self).pos() == old(self).pos()
                },
            },
    {
        let a = self.read_array::<2>()?;
        Ok((a[0] as u16) * 256 + (a[1] as u16))
    }

    /// Reads a big-endian 24-bit unsigned integer.
    ///
    /// TLS handshake message lengths use this three-byte representation.
    ///
    /// # Errors
    ///
    /// Returns [`Error::UnexpectedEof`] if fewer than three bytes remain.
    pub fn read_u24(&mut self) -> (r: Result<usize, Error>)
        ensures
            final(self).data() == old(self).data(),
            final(self).valid(),
            old(self).valid(),
            match r {
                Ok(v) => {
                    &&& 3 <= old(self).unread().len()
                    &&& v == be24_value(
                        old(self).data()[old(self).pos()],
                        old(self).data()[old(self).pos() + 1],
                        old(self).data()[old(self).pos() + 2],
                    )
                    &&& final(self).pos() == old(self).pos() + 3
                },
                Err(e) => {
                    &&& old(self).unread().len() < 3
                    &&& e == eof(3, old(self).unread().len() as int)
                    &&& final(self).pos() == old(self).pos()
                },
            },
    {
        let a = self.read_array::<3>()?;
        Ok((a[0] as usize) * 65536 + (a[1] as usize) * 256 + (a[2] as usize))
    }
}

} // verus!
