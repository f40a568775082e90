//! Primitives and implementations for network fingerprinting: JA3 and JA3S
//! passive TLS fingerprints and JARM active TLS server fingerprints.
use vstd::prelude::*;

pub mod digest;
pub mod error;
pub mod ja3;
pub mod jarm;
pub mod primitives;
pub mod text;
pub mod tls;
mod utils;
pub mod wire;

pub use error::Error;
pub use ja3::{ja3_fingerprint, ja3s_fingerprint};
pub use jarm::{generate_jarm_probes, jarm_fingerprint};

verus! {
} // verus!
