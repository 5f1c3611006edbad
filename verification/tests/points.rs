use cs2kz_api::maps::{FilterId, Tier};
use cs2kz_api::players::{FloatClass, InvalidPlayerRating};
use cs2kz_api::players::rating::check_rating;
use cs2kz_api::points::daemon::{
    points_batches, resume, step, DaemonAction, DaemonEvent, DaemonState, FilterInfo, PointsBatch,
    MAX_CHUNK_SIZE,
};
use cs2kz_api::points::{
    checked_tier_portion_points, is_small_leaderboard, tier_portion_points, MAX_POINTS,
    SMALL_LEADERBOARD_THRESHOLD,
};
use cs2kz_api::records::Leaderboard;

#[test]
fn tier_portions() {
    assert_eq!(tier_portion_points(Tier::VeryEasy, Leaderboard::NUB), 0);
    assert_eq!(tier_portion_points(Tier::VeryEasy, Leaderboard::PRO), 1000);
    assert_eq!(tier_portion_points(Tier::Medium, Leaderboard::NUB), 2000);
    assert_eq!(tier_portion_points(Tier::Advanced, Leaderboard::PRO), 4150);
    assert_eq!(tier_portion_points(Tier::Death, Leaderboard::NUB), 9500);
    assert_eq!(tier_portion_points(Tier::Death, Leaderboard::PRO), 9550);
    assert_eq!(checked_tier_portion_points(Tier::Extreme, Leaderboard::NUB), Some(8000));
    assert_eq!(checked_tier_portion_points(Tier::Unfeasible, Leaderboard::NUB), None);
    assert_eq!(checked_tier_portion_points(Tier::Impossible, Leaderboard::PRO), None);
}

#[test]
fn tier_portions_grow_with_the_tier() {
    let tiers = [
        Tier::VeryEasy,
        Tier::Easy,
        Tier::Medium,
        Tier::Advanced,
        Tier::Hard,
        Tier::VeryHard,
        Tier::Extreme,
        Tier::Death,
    ];
    for lb in [Leaderboard::NUB, Leaderboard::PRO] {
        for pair in tiers.windows(2) {
            assert!(tier_portion_points(pair[0], lb) < tier_portion_points(pair[1], lb));
        }
    }
    for tier in tiers {
        assert!(tier_portion_points(tier, Leaderboard::NUB) < tier_portion_points(tier, Leaderboard::PRO));
        assert!(tier_portion_points(tier, Leaderboard::PRO) < MAX_POINTS);
    }
}

#[test]
fn small_leaderboards() {
    assert!(is_small_leaderboard(0));
    assert!(is_small_leaderboard(SMALL_LEADERBOARD_THRESHOLD));
    assert!(!is_small_leaderboard(51));
}

#[test]
fn player_ratings() {
    assert_eq!(check_rating(FloatClass::Normal, false), Ok(()));
    assert_eq!(check_rating(FloatClass::Zero, false), Ok(()));
    assert_eq!(check_rating(FloatClass::Zero, true), Err(InvalidPlayerRating::IsNegative));
    assert_eq!(check_rating(FloatClass::Normal, true), Err(InvalidPlayerRating::IsNegative));
    assert_eq!(check_rating(FloatClass::Nan, false), Err(InvalidPlayerRating::IsNaN));
    assert_eq!(check_rating(FloatClass::Infinite, true), Err(InvalidPlayerRating::IsInfinity));
    assert_eq!(check_rating(FloatClass::Subnormal, false), Err(InvalidPlayerRating::IsSubnormal));
}

fn info() -> FilterInfo {
    FilterInfo { id: FilterId(3), nub_tier: Tier::Hard, pro_tier: Tier::VeryHard }
}

#[test]
fn daemon_round_with_large_leaderboards() {
    let (state, action) = resume(false);
    assert_eq!(action, DaemonAction::FindFilter);
    let (state, action) = step(state, DaemonEvent::FilterFound { filter: Some(info()) });
    assert_eq!(action, DaemonAction::FetchLeaderboards { filter_id: FilterId(3) });
    let (state, action) = step(state, DaemonEvent::Fetched { nub_len: 51, pro_len: 10, cancelled: false });
    assert_eq!(action, DaemonAction::FitDistributions { filter_id: FilterId(3), nub: true, pro: false });
    let (state, action) = step(state, DaemonEvent::Fitted);
    assert_eq!(
        action,
        DaemonAction::RecalculatePoints { filter: info(), nub_distribution: true, pro_distribution: false }
    );
    let (state, action) = step(state, DaemonEvent::Recalculated);
    assert_eq!(action, DaemonAction::StorePoints { filter_id: FilterId(3) });
    let (state, action) = step(state, DaemonEvent::Stored { cancelled: false });
    assert_eq!(state, DaemonState::Searching);
    assert_eq!(action, DaemonAction::FindFilter);
}

#[test]
fn daemon_skips_fitting_for_small_leaderboards() {
    let state = DaemonState::Fetching { filter: info() };
    let (state, action) = step(state, DaemonEvent::Fetched { nub_len: 50, pro_len: 0, cancelled: false });
    assert_eq!(
        action,
        DaemonAction::RecalculatePoints { filter: info(), nub_distribution: false, pro_distribution: false }
    );
    assert!(matches!(state, DaemonState::Recalculating { .. }));
}

#[test]
fn daemon_waits_and_stops() {
    assert_eq!(resume(true), (DaemonState::Stopped, DaemonAction::Stop));
    let (state, action) = step(DaemonState::Searching, DaemonEvent::FilterFound { filter: None });
    assert_eq!((state, action), (DaemonState::Waiting, DaemonAction::WaitForRecord));
    assert_eq!(
        step(DaemonState::Waiting, DaemonEvent::Woken { cancelled: false }),
        (DaemonState::Searching, DaemonAction::FindFilter)
    );
    assert_eq!(
        step(DaemonState::Waiting, DaemonEvent::Woken { cancelled: true }),
        (DaemonState::Stopped, DaemonAction::Stop)
    );
    // cancelled while fetching: nothing is written
    assert_eq!(
        step(
            DaemonState::Fetching { filter: info() },
            DaemonEvent::Fetched { nub_len: 1000, pro_len: 1000, cancelled: true }
        ),
        (DaemonState::Stopped, DaemonAction::Stop)
    );
    assert_eq!(
        step(DaemonState::Storing { filter: info() }, DaemonEvent::Stored { cancelled: true }),
        (DaemonState::Stopped, DaemonAction::Stop)
    );
}

#[test]
fn points_are_written_in_batches() {
    assert!(points_batches(0, 0).is_empty());
    assert_eq!(
        points_batches(3, 0),
        vec![PointsBatch { leaderboard: Leaderboard::NUB, start: 0, end: 3 }]
    );
    assert_eq!(
        points_batches(2500, 1000),
        vec![
            PointsBatch { leaderboard: Leaderboard::NUB, start: 0, end: 1000 },
            PointsBatch { leaderboard: Leaderboard::PRO, start: 0, end: 1000 },
            PointsBatch { leaderboard: Leaderboard::NUB, start: 1000, end: 2000 },
            PointsBatch { leaderboard: Leaderboard::NUB, start: 2000, end: 2500 },
        ]
    );
    assert_eq!(
        points_batches(0, 1001),
        vec![
            PointsBatch { leaderboard: Leaderboard::PRO, start: 0, end: 1000 },
            PointsBatch { leaderboard: Leaderboard::PRO, start: 1000, end: 1001 },
        ]
    );
}

#[test]
fn every_record_is_written_once() {
    for (nub, pro) in [(0usize, 7usize), (999, 1000), (1000, 1001), (4321, 123)] {
        let batches = points_batches(nub, pro);
        let mut nub_seen = vec![0u32; nub];
        let mut pro_seen = vec![0u32; pro];
        for b in &batches {
            assert!(b.start < b.end && b.end - b.start <= MAX_CHUNK_SIZE);
            let seen = match b.leaderboard {
                Leaderboard::NUB => &mut nub_seen,
                Leaderboard::PRO => &mut pro_seen,
            };
            for i in b.start..b.end {
                seen[i] += 1;
            }
        }
        assert!(nub_seen.iter().all(|&n| n == 1));
        assert!(pro_seen.iter().all(|&n| n == 1));
    }
}
