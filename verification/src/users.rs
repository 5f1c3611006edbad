//! Users of the API (players who log in through Steam).

use vstd::prelude::*;

verus! {

/// A user's ID (their SteamID in 64-bit form).
#[derive(Debug, Clone, Copy, PartialEq, Eq, PartialOrd, Ord, Hash, Structural)]
pub struct UserId(pub u64);

/// A user's name.
#[derive(Debug)]
pub struct Username(pub String);

/// Why a string is not a valid [`Username`]: it is empty.
#[derive(Debug, Clone, Copy, PartialEq, Eq, Structural)]
pub struct InvalidUsername;

} // verus!
