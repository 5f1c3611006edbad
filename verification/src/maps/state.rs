use vstd::prelude::*;

verus! {

/// The lifecycle state of a map.
#[derive(Debug, Clone, Copy, PartialEq, Eq, Structural)]
pub enum MapState {
    /// The map was never approved and has been abandoned.
    Graveyard,
    /// The map is currently work-in-progress.
    WIP,
    /// The map has been submitted for approval.
    Pending,
    /// The map has been approved.
    Approved,
    /// The map was never approved but is considered "completed" by the mapper.
    Completed,
}

impl MapState {
    /// Whether a map in this state is "frozen".
    pub open spec fn frozen(self) -> bool {
        self is Pending || self is Approved || self is Completed
    }

    /// Returns whether a map in the given state is "frozen".
    ///
    /// A "frozen" map's state may only be updated by the API itself or admins,
    /// not the mapper.
    pub fn is_frozen(&self) -> (r: bool)
        ensures
            r == self.frozen(),
    {
        match self {
            MapState::Pending | MapState::Approved | MapState::Completed => true,
            MapState::Graveyard | MapState::WIP => false,
        }
    }
}

} // verus!
