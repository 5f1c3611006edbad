use vstd::prelude::*;

verus! {

/// The difficulty of a course filter, from 1 (very easy) to 10 (impossible).
#[derive(Debug, Clone, Copy, PartialEq, Eq, PartialOrd, Ord, Hash, Structural)]
pub enum Tier {
    /// An average CS2 player who has never touched KZ before is able to
    /// complete the course
    VeryEasy,
    /// A new KZ player who has just learned movement basics like air strafing
    /// and bunny hopping is able to complete the course
    Easy,
    /// More difficult than T2 but without introducing new concepts
    Medium,
    /// More advanced concepts like surf and ladders but still on a basic level
    Advanced,
    /// Even more advanced concepts and more niche mechanics like box-tech,
    /// tightly timed sections, wall strafing, prekeep, etc.
    Hard,
    /// More difficult than T5 but without introducing new concepts
    VeryHard,
    /// Features the most advanced mechanics
    Extreme,
    /// T7 but harder
    Death,
    /// Special tier for courses that are *technically* possible, but unlikely
    /// to be done by humans without TAS (Tool-Assisted Speedrun) tools
    Unfeasible,
    /// Special tier for courses that are *literally* impossible; even with
    /// perfect inputs (generally reserved for VNL filters on courses intended
    /// for CKZ)
    Impossible,
}

impl Tier {
    /// The tier's number, 1 to 10.
    pub open spec fn level(self) -> u8 {
        match self {
            Tier::VeryEasy => 1,
            Tier::Easy => 2,
            Tier::Medium => 3,
            Tier::Advanced => 4,
            Tier::Hard => 5,
            Tier::VeryHard => 6,
            Tier::Extreme => 7,
            Tier::Death => 8,
            Tier::Unfeasible => 9,
            Tier::Impossible => 10,
        }
    }

    /// The tier with number `n`, for `1 <= n <= 10`.
    pub open spec fn from_level(n: u8) -> Tier {
        if n <= 1 {
            Tier::VeryEasy
        } else if n == 2 {
            Tier::Easy
        } else if n == 3 {
            Tier::Medium
        } else if n == 4 {
            Tier::Advanced
        } else if n == 5 {
            Tier::Hard
        } else if n == 6 {
            Tier::VeryHard
        } else if n == 7 {
            Tier::Extreme
        } else if n == 8 {
            Tier::Death
        } else if n == 9 {
            Tier::Unfeasible
        } else {
            Tier::Impossible
        }
    }

    /// The tier's number, 1 to 10 (`tier as u8`).
    pub fn number(&self) -> (r: u8)
        ensures
            r == self.level(),
            1 <= r <= 10,
    {
        match self {
            Tier::VeryEasy => 1,
            Tier::Easy => 2,
            Tier::Medium => 3,
            Tier::Advanced => 4,
            Tier::Hard => 5,
            Tier::VeryHard => 6,
            Tier::Extreme => 7,
            Tier::Death => 8,
            Tier::Unfeasible => 9,
            Tier::Impossible => 10,
        }
    }

    /// The tier with the given number; numbers outside 1 to 10 have none.
    pub fn from_number(n: u8) -> (r: Option<Tier>)
        ensures
            (1 <= n <= 10) <==> r is Some,
            r matches Some(t) ==> t.level() == n && t == Tier::from_level(n),
    {
        match n {
            1 => Some(Tier::VeryEasy),
            2 => Some(Tier::Easy),
            3 => Some(Tier::Medium),
            4 => Some(Tier::Advanced),
            5 => Some(Tier::Hard),
            6 => Some(Tier::VeryHard),
            7 => Some(Tier::Extreme),
            8 => Some(Tier::Death),
            9 => Some(Tier::Unfeasible),
            10 => Some(Tier::Impossible),
            _ => None,
        }
    }

    /// Whether a human can complete a course of this tier: tiers up to and
    /// including [`Tier::Death`].
    pub open spec fn humanly_possible(self) -> bool {
        self.level() <= Tier::Death.level()
    }

    /// Returns whether a human can complete a course of this tier.
    pub fn is_humanly_possible(&self) -> (r: bool)
        ensures
            r == self.humanly_possible(),
    {
        self.number() <= Tier::Death.number()
    }
}

/// Numbers and tiers correspond one to one.
pub proof fn law_tier_number_roundtrip(t: Tier, n: u8)
    ensures
        Tier::from_level(t.level()) == t,
        1 <= n <= 10 ==> Tier::from_level(n).level() == n,
{
}

/// The tiers a human can complete are all tiers but unfeasible and
/// impossible.
pub proof fn law_humanly_possible_tiers(t: Tier)
    ensures
        t.humanly_possible() == (t != Tier::Unfeasible && t != Tier::Impossible),
{
}

} // verus!
