//! Record point calculations: the parts of the calculation that do not
//! involve floating point.
//!
//! The final points value of a record is based on the tier of the course
//! (the tier portion), the record's rank on its leaderboard (the rank
//! portion) and its time relative to the rest of the leaderboard (the
//! leaderboard portion). The tier portion is a baseline between 0 and 9550
//! points; the other two portions share the remaining points.

use crate::maps::Tier;
use crate::records::Leaderboard;
use vstd::prelude::*;

pub mod daemon;

verus! {

/// Threshold for what constitutes a "small" leaderboard.
pub const SMALL_LEADERBOARD_THRESHOLD: usize = 50;

/// The maximum number of points any record can have.
pub const MAX_POINTS: u32 = 10000;

/// The baseline points for completing a course of a given tier on a given
/// leaderboard.
pub open spec fn tier_baseline(tier: Tier, leaderboard: Leaderboard) -> int {
    match (tier, leaderboard) {
        (Tier::VeryEasy, Leaderboard::NUB) => 0,
        (Tier::VeryEasy, Leaderboard::PRO) => 1000,
        (Tier::Easy, Leaderboard::NUB) => 500,
        (Tier::Easy, Leaderboard::PRO) => 1450,
        (Tier::Medium, Leaderboard::NUB) => 2000,
        (Tier::Medium, Leaderboard::PRO) => 2800,
        (Tier::Advanced, Leaderboard::NUB) => 3500,
        (Tier::Advanced, Leaderboard::PRO) => 4150,
        (Tier::Hard, Leaderboard::NUB) => 5000,
        (Tier::Hard, Leaderboard::PRO) => 5500,
        (Tier::VeryHard, Leaderboard::NUB) => 6500,
        (Tier::VeryHard, Leaderboard::PRO) => 6850,
        (Tier::Extreme, Leaderboard::NUB) => 8000,
        (Tier::Extreme, Leaderboard::PRO) => 8200,
        (Tier::Death, Leaderboard::NUB) => 9500,
        (Tier::Death, Leaderboard::PRO) => 9550,
        _ => 0,
    }
}

/// Returns the minimum number of points to award for a completion on a
/// filter with the given `tier` (the value of `TierPortion::new`): between 0
/// and 9550, below the baseline of every harder tier, and for NUB below the
/// PRO baseline of the same tier.
///
/// Only tiers a human can complete have a baseline.
pub fn tier_portion_points(tier: Tier, leaderboard: Leaderboard) -> (r: u32)
    requires
        tier.humanly_possible(),
    ensures
        r == tier_baseline(tier, leaderboard),
        0 <= r <= 9550,
        forall|harder: Tier|
            harder.humanly_possible() && tier.level() < harder.level() ==> r < #[trigger] tier_baseline(
                harder,
                leaderboard,
            ),
        leaderboard is NUB ==> r < tier_baseline(tier, Leaderboard::PRO),
        leaderboard is NUB && tier.level() >= 3 ==> r == 1500 * tier.level() - 2500,
        leaderboard is PRO && tier.level() >= 2 ==> r == 1350 * tier.level() - 1250,
        tier == Tier::VeryEasy ==> r == (if leaderboard is NUB {
            0int
        } else {
            1000int
        }),
        tier == Tier::Easy && leaderboard is NUB ==> r == 500,
{
    proof {
        law_tier_portion_values(tier);
        law_tier_portion_order(tier, tier, leaderboard);
        assert forall|harder: Tier|
            harder.humanly_possible() && tier.level() < harder.level() implies tier_baseline(
                tier,
                leaderboard,
            ) < #[trigger] tier_baseline(harder, leaderboard) by {
            law_tier_portion_order(tier, harder, leaderboard);
        }
    }
    match (tier, leaderboard) {
        (Tier::VeryEasy, Leaderboard::NUB) => 0,
        (Tier::VeryEasy, Leaderboard::PRO) => 1000,
        (Tier::Easy, Leaderboard::NUB) => 500,
        (Tier::Easy, Leaderboard::PRO) => 1450,
        (Tier::Medium, Leaderboard::NUB) => 2000,
        (Tier::Medium, Leaderboard::PRO) => 2800,
        (Tier::Advanced, Leaderboard::NUB) => 3500,
        (Tier::Advanced, Leaderboard::PRO) => 4150,
        (Tier::Hard, Leaderboard::NUB) => 5000,
        (Tier::Hard, Leaderboard::PRO) => 5500,
        (Tier::VeryHard, Leaderboard::NUB) => 6500,
        (Tier::VeryHard, Leaderboard::PRO) => 6850,
        (Tier::Extreme, Leaderboard::NUB) => 8000,
        (Tier::Extreme, Leaderboard::PRO) => 8200,
        (Tier::Death, Leaderboard::NUB) => 9500,
        (Tier::Death, Leaderboard::PRO) => 9550,
        (Tier::Unfeasible, _) | (Tier::Impossible, _) => {
            assert(false);
            0
        },
    }
}

/// The tier portion for a tier if a human can complete it, and `None` for
/// the tiers that have no baseline.
pub fn checked_tier_portion_points(tier: Tier, leaderboard: Leaderboard) -> (r: Option<u32>)
    ensures
        r is Some <==> tier.humanly_possible(),
        r matches Some(p) ==> p == tier_baseline(tier, leaderboard),
{
    if tier.is_humanly_possible() {
        Some(tier_portion_points(tier, leaderboard))
    } else {
        None
    }
}

/// Whether a leaderboard with `len` records is small, in which case points
/// are estimated without fitting a distribution.
pub fn is_small_leaderboard(len: usize) -> (r: bool)
    ensures
        r == (len <= SMALL_LEADERBOARD_THRESHOLD),
{
    len <= SMALL_LEADERBOARD_THRESHOLD
}

/// The tier portion (the baseline that [`tier_portion_points`] returns for
/// every tier a human can complete) rewards harder courses: it grows strictly
/// with the tier,
/// a run without checkpoints earns more than one with them on the same
/// course, and the baseline stays between 0 and 9550, below the maximum of
/// 10000 points.
pub proof fn law_tier_portion_order(t1: Tier, t2: Tier, leaderboard: Leaderboard)
    requires
        t1.humanly_possible(),
        t2.humanly_possible(),
    ensures
        t1.level() < t2.level() ==> tier_baseline(t1, leaderboard) < tier_baseline(t2, leaderboard),
        tier_baseline(t1, Leaderboard::NUB) < tier_baseline(t1, Leaderboard::PRO),
        0 <= tier_baseline(t1, leaderboard) <= 9550,
        tier_baseline(t1, leaderboard) < MAX_POINTS,
{
}

/// The baselines follow a fixed scale: without teleports (PRO) a run earns
/// 1000 points on a very easy course and 1350 more for every tier from easy
/// on (1450 up to 9550 on death); with teleports (NUB) it earns 0 on a very
/// easy course, 500 on an easy one, and from medium on 1500 more for every
/// tier (2000 up to 9500 on death).
pub proof fn law_tier_portion_values(t: Tier)
    requires
        t.humanly_possible(),
    ensures
        t.level() >= 3 ==> tier_baseline(t, Leaderboard::NUB) == 1500 * t.level() - 2500,
        t.level() >= 2 ==> tier_baseline(t, Leaderboard::PRO) == 1350 * t.level() - 1250,
        t == Tier::Easy ==> tier_baseline(t, Leaderboard::NUB) == 500,
        t == Tier::VeryEasy ==> tier_baseline(t, Leaderboard::NUB) == 0 && tier_baseline(
            t,
            Leaderboard::PRO,
        ) == 1000,
{
}

/// Failure to fit a distribution to a leaderboard.
#[derive(Debug)]
pub struct DistributionError {
    pub message: String,
}

} // verus!
