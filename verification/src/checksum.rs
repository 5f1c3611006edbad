//! File checksums (MD5 digests).

use vstd::prelude::*;

verus! {

/// An MD5 digest of a file, as one 128-bit number (big-endian).
#[derive(Debug, Clone, Copy, PartialEq, Eq, Hash, Structural)]
pub struct Checksum(pub u128);

} // verus!
