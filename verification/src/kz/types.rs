use vstd::prelude::*;

verus! {

/// A KZ mode, as filters are declared for (each course has a filter for
/// every mode with and without teleports).
#[derive(Debug, Clone, Copy, PartialEq, Eq, PartialOrd, Ord, Hash, Structural)]
pub enum Mode {
    /// Vanilla
    Vanilla,
    /// Classic
    Classic,
}

impl Mode {
    /// The position of the mode in the order of declaration.
    pub open spec fn rank(self) -> int {
        match self {
            Mode::Vanilla => 0,
            Mode::Classic => 1,
        }
    }
}

/// Whether a filter's records count towards rankings.
#[derive(Debug, Clone, Copy, PartialEq, Eq, PartialOrd, Ord, Hash, Structural)]
pub enum RankedStatus {
    /// The filter will never be ranked.
    Never,
    /// The filter is currently not ranked.
    Unranked,
    /// The filter is ranked.
    Ranked,
}

impl RankedStatus {
    /// Whether this status is [`RankedStatus::Ranked`].
    pub fn is_ranked(&self) -> (r: bool)
        ensures
            r == (*self is Ranked),
    {
        match self {
            RankedStatus::Ranked => true,
            _ => false,
        }
    }
}

/// Whether a map is part of the global map pool.
#[derive(Debug, Clone, Copy, PartialEq, Eq, PartialOrd, Ord, Hash, Structural)]
pub enum GlobalStatus {
    /// The map is not global.
    NotGlobal,
    /// The map is being tested before it becomes global.
    InTesting,
    /// The map is global.
    Global,
}

/// A player's SteamID, as its 64-bit form.
#[derive(Debug, Clone, Copy, PartialEq, Eq, PartialOrd, Ord, Hash, Structural)]
pub struct SteamID(pub u64);

} // verus!
