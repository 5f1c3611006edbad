//! Records: the leaderboards they are placed on and their ranks.

use vstd::prelude::*;

verus! {

/// The two leaderboards of a filter: runs with checkpoints (NUB) and runs
/// without (PRO).
#[derive(Debug, Clone, Copy, PartialEq, Eq, Hash, Structural)]
pub enum Leaderboard {
    NUB,
    PRO,
}

/// The 0-based placement of a record on its leaderboard.
#[derive(Debug, Clone, Copy, PartialEq, Eq, PartialOrd, Ord, Hash, Structural)]
pub struct Rank(pub usize);

} // verus!
