use vstd::prelude::*;

use crate::error::{overflow, Error};
use crate::wire::be24;

verus! {

/// Represents an unsigned 24-bit integer.
#[derive(Debug, Clone, Copy, PartialEq, Eq, Hash, Structural)]
pub struct U24(usize);

impl View for U24 {
    type V = nat;

    closed spec fn view(&self) -> nat {
        self.0 as nat
    }
}

impl U24 {
    #[verifier::type_invariant]
    spec fn fits(self) -> bool {
        self.0 <= Self::MAX
    }

    /// The largest value a 24-bit unsigned integer holds.
    pub const MAX: usize = 16777215;

    /// Creates a new 24-bit unsigned integer.
    ///
    /// # Errors
    ///
    /// Returns [`Error::LengthOverflow`] if `value` exceeds `0xFF_FFFF`.
    pub fn new(value: usize) -> (r: Result<Self, Error>)
        ensures
            match r {
                Ok(v) => value <= Self::MAX && v@ == value,
                Err(e) => value > Self::MAX && e == overflow(Self::MAX as int, value as int),
            },
    {
        if value > Self::MAX {
            return Err(Error::LengthOverflow { max: Self::MAX, actual: value });
        }
        Ok(Self(value))
    }

    /// Returns the value encoded as three bytes in network byte order.
    pub fn to_be_bytes(self) -> (r: [u8; 3])
        ensures
            self@ <= Self::MAX,
            r@ == be24(self@ as int),
    {
        proof {
            use_type_invariant(&self);
        }
        let r = [(self.0 / 65536) as u8, ((self.0 / 256) % 256) as u8, (self.0 % 256) as u8];
        assert(r@ =~= be24(self@ as int));
        r
    }
}

} // verus!
