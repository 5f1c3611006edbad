//! Game servers.

use vstd::prelude::*;

verus! {

/// The API's ID for a CS2 server.
#[derive(Debug, Clone, Copy, PartialEq, Eq, PartialOrd, Ord, Hash, Structural)]
pub struct ServerID(pub u16);

} // verus!
