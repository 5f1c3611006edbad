use vstd::prelude::*;

verus! {

/// The two games KZ is played in.
#[derive(Debug, Clone, Copy, PartialEq, Eq, Hash, Structural)]
pub enum Game {
    CS2,
    CSGO,
}

/// The different game modes across CS2 and CS:GO
#[derive(Debug, Clone, Copy, PartialEq, Eq, Hash, Structural)]
pub enum Mode {
    /// VNL in CS2
    VanillaCS2,
    /// CKZ in CS2
    Classic,
    /// KZT in CS:GO
    KZTimer,
    /// SKZ in CS:GO
    SimpleKZ,
    /// VNL in CS:GO
    VanillaCSGO,
}

impl Mode {
    /// The game this mode belongs to.
    pub open spec fn spec_game(self) -> Game {
        match self {
            Mode::VanillaCS2 | Mode::Classic => Game::CS2,
            _ => Game::CSGO,
        }
    }

    pub fn game(&self) -> (g: Game)
        ensures
            g == self.spec_game(),
    {
        match *self {
            Mode::VanillaCS2 | Mode::Classic => Game::CS2,
            Mode::KZTimer | Mode::SimpleKZ | Mode::VanillaCSGO => Game::CSGO,
        }
    }
}

} // verus!
