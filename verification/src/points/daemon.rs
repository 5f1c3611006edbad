//! The decisions of the points daemon.
//!
//! The daemon repeatedly picks a filter whose points are out of date, fetches
//! its two leaderboards, fits distributions to the leaderboards that are too
//! large to be estimated, recalculates the points of every record and writes
//! them back. The work itself (database queries, fitting, waiting) happens
//! outside; here stands what the daemon does next after each piece of work,
//! and how the new points are split into insert statements.

use crate::maps::{FilterId, Tier};
use crate::points::SMALL_LEADERBOARD_THRESHOLD;
use crate::records::Leaderboard;
use vstd::prelude::*;

verus! {

/// A filter whose points are due for recalculation, with the tiers of its
/// two leaderboards.
#[derive(Debug, Clone, Copy, PartialEq, Eq, Structural)]
pub struct FilterInfo {
    pub id: FilterId,
    pub nub_tier: Tier,
    pub pro_tier: Tier,
}

/// Where the daemon stands while a piece of outside work is under way.
#[derive(Debug, Clone, Copy, PartialEq, Eq, Structural)]
pub enum DaemonState {
    /// Looking for the next filter to recalculate.
    Searching,
    /// Nothing to recalculate: waiting for a new record or for cancellation.
    Waiting,
    /// Fetching both leaderboards of `filter`.
    Fetching { filter: FilterInfo },
    /// Fitting distributions to the leaderboards of `filter` that are not
    /// small, and caching their parameters.
    Fitting { filter: FilterInfo, fit_nub: bool, fit_pro: bool },
    /// Recalculating the points of both leaderboards of `filter`, with a
    /// distribution for each leaderboard whose flag is set.
    Recalculating { filter: FilterInfo, nub_distribution: bool, pro_distribution: bool },
    /// Writing the recalculated points of `filter`.
    Storing { filter: FilterInfo },
    /// Shut down.
    Stopped,
}

/// What came of the outside work that the last action asked for.
///
/// `cancelled` is whether cancellation has been requested, as seen when the
/// work ended.
#[derive(Debug, Clone, Copy, PartialEq, Eq, Structural)]
pub enum DaemonEvent {
    /// The search ended, with the filter to recalculate if there is one.
    FilterFound { filter: Option<FilterInfo> },
    /// The wait ended, because a record was submitted or because of
    /// cancellation.
    Woken { cancelled: bool },
    /// Both leaderboards were fetched.
    Fetched { nub_len: usize, pro_len: usize, cancelled: bool },
    /// The requested distributions were fitted and cached.
    Fitted,
    /// The points of both leaderboards were recalculated.
    Recalculated,
    /// The points were written.
    Stored { cancelled: bool },
}

/// The outside work that the daemon asks for next.
#[derive(Debug, Clone, Copy, PartialEq, Eq, Structural)]
pub enum DaemonAction {
    /// Find (and claim) the filter with the highest recalculation priority.
    FindFilter,
    /// Wait until a record is submitted or cancellation is requested.
    WaitForRecord,
    /// Fetch the NUB and PRO leaderboards of a filter.
    FetchLeaderboards { filter_id: FilterId },
    /// Fit a distribution to each flagged leaderboard and cache its
    /// parameters.
    FitDistributions { filter_id: FilterId, nub: bool, pro: bool },
    /// Recalculate the points of both leaderboards of `filter`, using a
    /// distribution for each flagged leaderboard and the small-leaderboard
    /// estimate for the others.
    RecalculatePoints { filter: FilterInfo, nub_distribution: bool, pro_distribution: bool },
    /// Write the recalculated points of a filter.
    StorePoints { filter_id: FilterId },
    /// Shut down.
    Stop,
}

/// The top of the daemon's loop: stop if cancellation was requested, look
/// for the next filter otherwise.
pub open spec fn loop_top(cancelled: bool) -> (DaemonState, DaemonAction) {
    if cancelled {
        (DaemonState::Stopped, DaemonAction::Stop)
    } else {
        (DaemonState::Searching, DaemonAction::FindFilter)
    }
}

/// Whether `event` is what the outside work of `state` can end with.
pub open spec fn answers(state: DaemonState, event: DaemonEvent) -> bool {
    match state {
        DaemonState::Searching => event is FilterFound,
        DaemonState::Waiting => event is Woken,
        DaemonState::Fetching { .. } => event is Fetched,
        DaemonState::Fitting { .. } => event is Fitted,
        DaemonState::Recalculating { .. } => event is Recalculated,
        DaemonState::Storing { .. } => event is Stored,
        DaemonState::Stopped => false,
    }
}

/// What the daemon does after `event` ends the work of `state`.
///
/// Cancellation is honoured at the top of the loop and once more right after
/// the leaderboards are fetched, the last point before anything is written.
/// A distribution is fitted only to a leaderboard with more than
/// [`SMALL_LEADERBOARD_THRESHOLD`] records; when neither needs one, fitting
/// is skipped.
pub open spec fn next(state: DaemonState, event: DaemonEvent) -> (DaemonState, DaemonAction) {
    match (state, event) {
        (DaemonState::Searching, DaemonEvent::FilterFound { filter: Some(filter) }) => (
            DaemonState::Fetching { filter },
            DaemonAction::FetchLeaderboards { filter_id: filter.id },
        ),
        (DaemonState::Searching, DaemonEvent::FilterFound { filter: None }) => (
            DaemonState::Waiting,
            DaemonAction::WaitForRecord,
        ),
        (DaemonState::Waiting, DaemonEvent::Woken { cancelled }) => loop_top(cancelled),
        (
            DaemonState::Fetching { filter },
            DaemonEvent::Fetched { nub_len, pro_len, cancelled },
        ) => {
            let fit_nub = nub_len > SMALL_LEADERBOARD_THRESHOLD;
            let fit_pro = pro_len > SMALL_LEADERBOARD_THRESHOLD;
            if cancelled {
                (DaemonState::Stopped, DaemonAction::Stop)
            } else if !fit_nub && !fit_pro {
                (
                    DaemonState::Recalculating {
                        filter,
                        nub_distribution: false,
                        pro_distribution: false,
                    },
                    DaemonAction::RecalculatePoints {
                        filter,
                        nub_distribution: false,
                        pro_distribution: false,
                    },
                )
            } else {
                (
                    DaemonState::Fitting { filter, fit_nub, fit_pro },
                    DaemonAction::FitDistributions { filter_id: filter.id, nub: fit_nub, pro: fit_pro },
                )
            }
        },
        (DaemonState::Fitting { filter, fit_nub, fit_pro }, DaemonEvent::Fitted) => (
            DaemonState::Recalculating {
                filter,
                nub_distribution: fit_nub,
                pro_distribution: fit_pro,
            },
            DaemonAction::RecalculatePoints {
                filter,
                nub_distribution: fit_nub,
                pro_distribution: fit_pro,
            },
        ),
        (DaemonState::Recalculating { filter, .. }, DaemonEvent::Recalculated) => (
            DaemonState::Storing { filter },
            DaemonAction::StorePoints { filter_id: filter.id },
        ),
        (DaemonState::Storing { .. }, DaemonEvent::Stored { cancelled }) => loop_top(cancelled),
        _ => (DaemonState::Stopped, DaemonAction::Stop),
    }
}

/// Where the daemon starts, and where it returns after a wait or after a
/// filter's points were written: stops if cancellation was requested, looks
/// for the next filter otherwise.
pub fn resume(cancelled: bool) -> (r: (DaemonState, DaemonAction))
    ensures
        r == loop_top(cancelled),
{
    if cancelled {
        (DaemonState::Stopped, DaemonAction::Stop)
    } else {
        (DaemonState::Searching, DaemonAction::FindFilter)
    }
}

/// The daemon's next state and action once `event` has ended the work of
/// `state`.
pub fn step(state: DaemonState, event: DaemonEvent) -> (r: (DaemonState, DaemonAction))
    requires
        answers(state, event),
    ensures
        r == next(state, event),
{
    match (state, event) {
        (DaemonState::Searching, DaemonEvent::FilterFound { filter: Some(filter) }) => (
            DaemonState::Fetching { filter },
            DaemonAction::FetchLeaderboards { filter_id: filter.id },
        ),
        (DaemonState::Searching, DaemonEvent::FilterFound { filter: None }) => (
            DaemonState::Waiting,
            DaemonAction::WaitForRecord,
        ),
        (DaemonState::Waiting, DaemonEvent::Woken { cancelled }) => resume(cancelled),
        (
            DaemonState::Fetching { filter },
            DaemonEvent::Fetched { nub_len, pro_len, cancelled },
        ) => {
            if cancelled {
                return (DaemonState::Stopped, DaemonAction::Stop);
            }
            let fit_nub = nub_len > SMALL_LEADERBOARD_THRESHOLD;
            let fit_pro = pro_len > SMALL_LEADERBOARD_THRESHOLD;
            if !fit_nub && !fit_pro {
                (
                    DaemonState::Recalculating {
                        filter,
                        nub_distribution: false,
                        pro_distribution: false,
                    },
                    DaemonAction::RecalculatePoints {
                        filter,
                        nub_distribution: false,
                        pro_distribution: false,
                    },
                )
            } else {
                (
                    DaemonState::Fitting { filter, fit_nub, fit_pro },
                    DaemonAction::FitDistributions { filter_id: filter.id, nub: fit_nub, pro: fit_pro },
                )
            }
        },
        (DaemonState::Fitting { filter, fit_nub, fit_pro }, DaemonEvent::Fitted) => (
            DaemonState::Recalculating {
                filter,
                nub_distribution: fit_nub,
                pro_distribution: fit_pro,
            },
            DaemonAction::RecalculatePoints {
                filter,
                nub_distribution: fit_nub,
                pro_distribution: fit_pro,
            },
        ),
        (DaemonState::Recalculating { filter, .. }, DaemonEvent::Recalculated) => (
            DaemonState::Storing { filter },
            DaemonAction::StorePoints { filter_id: filter.id },
        ),
        (DaemonState::Storing { .. }, DaemonEvent::Stored { cancelled }) => resume(cancelled),
        _ => (DaemonState::Stopped, DaemonAction::Stop),
    }
}

/// The daemon shuts down exactly when cancellation was requested at one of
/// its checks, and asks for no more work after that: an answered step ends
/// in the stopped state if and only if its action is to stop, and only
/// events that report cancellation lead there.
pub proof fn law_stops_only_on_cancellation(state: DaemonState, event: DaemonEvent)
    requires
        answers(state, event),
    ensures
        (next(state, event).0 is Stopped) <==> (next(state, event).1 is Stop),
        next(state, event).0 is Stopped ==> match event {
            DaemonEvent::Woken { cancelled } => cancelled,
            DaemonEvent::Fetched { cancelled, .. } => cancelled,
            DaemonEvent::Stored { cancelled } => cancelled,
            _ => false,
        },
        match event {
            DaemonEvent::Woken { cancelled } => cancelled ==> next(state, event).0 is Stopped,
            DaemonEvent::Fetched { cancelled, .. } => cancelled ==> next(state, event).0 is Stopped,
            DaemonEvent::Stored { cancelled } => cancelled ==> next(state, event).0 is Stopped,
            _ => true,
        },
{
}

/// A distribution is fitted to a leaderboard, and used for its points,
/// exactly when the leaderboard is not small; fitting is asked for only when
/// at least one leaderboard needs it.
pub proof fn law_fits_only_large_leaderboards(
    filter: FilterInfo,
    nub_len: usize,
    pro_len: usize,
)
    ensures
        ({
            let (s1, a1) = next(
                DaemonState::Fetching { filter },
                DaemonEvent::Fetched { nub_len, pro_len, cancelled: false },
            );
            let (s2, a2) = next(s1, DaemonEvent::Fitted);
            let uses = |a: DaemonAction|
                a == DaemonAction::RecalculatePoints {
                    filter,
                    nub_distribution: nub_len > SMALL_LEADERBOARD_THRESHOLD,
                    pro_distribution: pro_len > SMALL_LEADERBOARD_THRESHOLD,
                };
            &&& (a1 is FitDistributions) <==> (nub_len > SMALL_LEADERBOARD_THRESHOLD
                || pro_len > SMALL_LEADERBOARD_THRESHOLD)
            &&& a1 matches DaemonAction::FitDistributions { filter_id, nub, pro } ==> {
                &&& filter_id == filter.id
                &&& nub == (nub_len > SMALL_LEADERBOARD_THRESHOLD)
                &&& pro == (pro_len > SMALL_LEADERBOARD_THRESHOLD)
                &&& uses(a2)
            }
            &&& !(a1 is FitDistributions) ==> uses(a1)
        }),
{
}

/// Every piece of work in one round concerns the filter that the search
/// returned: the filter carried by the state, and named by the action, is
/// passed on unchanged until its points are written.
pub proof fn law_round_keeps_filter(state: DaemonState, event: DaemonEvent)
    requires
        answers(state, event),
    ensures
        match (state, next(state, event).0) {
            (DaemonState::Fetching { filter }, DaemonState::Fitting { filter: f, .. }) => f == filter,
            (DaemonState::Fetching { filter }, DaemonState::Recalculating { filter: f, .. }) => f
                == filter,
            (DaemonState::Fitting { filter, .. }, DaemonState::Recalculating { filter: f, .. }) => f
                == filter,
            (DaemonState::Recalculating { filter, .. }, DaemonState::Storing { filter: f }) => f
                == filter,
            _ => true,
        },
        match next(state, event).1 {
            DaemonAction::FitDistributions { filter_id, .. } => state matches DaemonState::Fetching {
                filter,
            } && filter_id == filter.id,
            DaemonAction::StorePoints { filter_id } => state matches DaemonState::Recalculating {
                filter,
                ..
            } && filter_id == filter.id,
            _ => true,
        },
{
}

/// The most records written by one insert statement.
pub const MAX_CHUNK_SIZE: usize = 1000;

/// One insert statement of recalculated points: the records of `leaderboard`
/// at positions `start` (inclusive) to `end` (exclusive), in leaderboard
/// order.
#[derive(Debug, Clone, Copy, PartialEq, Eq, Structural)]
pub struct PointsBatch {
    pub leaderboard: Leaderboard,
    pub start: usize,
    pub end: usize,
}

/// The length of the leaderboard that `lb` names.
pub open spec fn board_len(lb: Leaderboard, nub_len: nat, pro_len: nat) -> nat {
    match lb {
        Leaderboard::NUB => nub_len,
        Leaderboard::PRO => pro_len,
    }
}

/// The batch of `lb` that starts at `start`, or none once the leaderboard is
/// used up.
pub open spec fn chunk(lb: Leaderboard, start: nat, len: nat) -> Seq<PointsBatch> {
    if start < len {
        let end: int = if len - start > MAX_CHUNK_SIZE {
            start + MAX_CHUNK_SIZE
        } else {
            len as int
        };
        seq![PointsBatch { leaderboard: lb, start: start as usize, end: end as usize }]
    } else {
        seq![]
    }
}

/// The insert statements from position `start` on: in each round up to
/// [`MAX_CHUNK_SIZE`] NUB records, then as many PRO records, until both
/// leaderboards are used up.
pub open spec fn batches_from(start: nat, nub_len: nat, pro_len: nat) -> Seq<PointsBatch>
    decreases nub_len + pro_len + MAX_CHUNK_SIZE - start,
{
    if start >= nub_len && start >= pro_len {
        seq![]
    } else {
        chunk(Leaderboard::NUB, start, nub_len) + chunk(Leaderboard::PRO, start, pro_len)
            + batches_from((start + MAX_CHUNK_SIZE) as nat, nub_len, pro_len)
    }
}

/// Splits the writes of a filter's recalculated points into insert
/// statements of at most [`MAX_CHUNK_SIZE`] records, alternating between the
/// two leaderboards as long as either has records left.
pub fn points_batches(nub_len: usize, pro_len: usize) -> (r: Vec<PointsBatch>)
    ensures
        r@ == batches_from(0, nub_len as nat, pro_len as nat),
{
    let mut batches: Vec<PointsBatch> = Vec::new();
    let mut start: usize = 0;
    while start < nub_len || start < pro_len
        invariant_except_break
            batches@ + batches_from(start as nat, nub_len as nat, pro_len as nat) == batches_from(
                0,
                nub_len as nat,
                pro_len as nat,
            ),
        ensures
            batches@ == batches_from(0, nub_len as nat, pro_len as nat),
        decreases nub_len + pro_len + MAX_CHUNK_SIZE - start,
    {
        let ghost before = batches@;
        if start < nub_len {
            let end = if nub_len - start > MAX_CHUNK_SIZE {
                start + MAX_CHUNK_SIZE
            } else {
                nub_len
            };
            batches.push(PointsBatch { leaderboard: Leaderboard::NUB, start, end });
        }
        if start < pro_len {
            let end = if pro_len - start > MAX_CHUNK_SIZE {
                start + MAX_CHUNK_SIZE
            } else {
                pro_len
            };
            batches.push(PointsBatch { leaderboard: Leaderboard::PRO, start, end });
        }
        proof {
            assert(batches@ == before + chunk(Leaderboard::NUB, start as nat, nub_len as nat)
                + chunk(Leaderboard::PRO, start as nat, pro_len as nat));
            assert(batches@ + batches_from(
                (start + MAX_CHUNK_SIZE) as nat,
                nub_len as nat,
                pro_len as nat,
            ) == before + batches_from(start as nat, nub_len as nat, pro_len as nat));
        }
        let nub_done = nub_len <= start || nub_len - start <= MAX_CHUNK_SIZE;
        let pro_done = pro_len <= start || pro_len - start <= MAX_CHUNK_SIZE;
        if nub_done && pro_done {
            proof {
                assert(batches_from((start + MAX_CHUNK_SIZE) as nat, nub_len as nat, pro_len as nat)
                    == Seq::<PointsBatch>::empty());
                assert(batches@ + Seq::<PointsBatch>::empty() == batches@);
            }
            break;
        }
        start = start + MAX_CHUNK_SIZE;
    }
    batches
}

/// Whether `b` is a batch of 1 to [`MAX_CHUNK_SIZE`] records of its
/// leaderboard, none before position `start`.
pub open spec fn batch_fits(b: PointsBatch, start: nat, nub_len: nat, pro_len: nat) -> bool {
    &&& start <= b.start
    &&& b.start < b.end
    &&& b.end <= board_len(b.leaderboard, nub_len, pro_len)
    &&& b.end - b.start <= MAX_CHUNK_SIZE
}

/// Whether some batch of `plan` writes record `i` of `lb`.
pub open spec fn writes(plan: Seq<PointsBatch>, lb: Leaderboard, i: nat) -> bool {
    exists|k: int|
        0 <= k < plan.len() && (#[trigger] plan[k]).leaderboard == lb && plan[k].start <= i
            && i < plan[k].end
}

proof fn lemma_batches_from(start: nat, nub_len: nat, pro_len: nat)
    requires
        nub_len <= usize::MAX,
        pro_len <= usize::MAX,
    ensures
        forall|k: int|
            0 <= k < batches_from(start, nub_len, pro_len).len() ==> batch_fits(
                #[trigger] batches_from(start, nub_len, pro_len)[k],
                start,
                nub_len,
                pro_len,
            ),
        forall|k1: int, k2: int|
            0 <= k1 < k2 < batches_from(start, nub_len, pro_len).len() && (#[trigger] batches_from(
                start,
                nub_len,
                pro_len,
            )[k1]).leaderboard == (#[trigger] batches_from(start, nub_len, pro_len)[k2]).leaderboard
                ==> batches_from(start, nub_len, pro_len)[k1].end <= batches_from(
                start,
                nub_len,
                pro_len,
            )[k2].start,
        forall|lb: Leaderboard, i: nat|
            start <= i < board_len(lb, nub_len, pro_len) ==> #[trigger] writes(
                batches_from(start, nub_len, pro_len),
                lb,
                i,
            ),
    decreases nub_len + pro_len + MAX_CHUNK_SIZE - start,
{
    let plan = batches_from(start, nub_len, pro_len);
    if start >= nub_len && start >= pro_len {
        assert forall|lb: Leaderboard, i: nat|
            start <= i < board_len(lb, nub_len, pro_len) implies #[trigger] writes(plan, lb, i) by {
        }
    } else {
        let next = (start + MAX_CHUNK_SIZE) as nat;
        let nub = chunk(Leaderboard::NUB, start, nub_len);
        let pro = chunk(Leaderboard::PRO, start, pro_len);
        let head = nub + pro;
        let tail = batches_from(next, nub_len, pro_len);
        lemma_batches_from(next, nub_len, pro_len);
        assert(plan == head + tail);
        assert forall|k: int| 0 <= k < head.len() implies {
            &&& batch_fits(#[trigger] head[k], start, nub_len, pro_len)
            &&& head[k].end <= next
            &&& head[k].start == start
        } by {
            if k < nub.len() {
                assert(head[k] == nub[k]);
            } else {
                assert(head[k] == pro[k - nub.len()]);
            }
        }
        assert forall|k: int| 0 <= k < plan.len() implies batch_fits(
            #[trigger] plan[k],
            start,
            nub_len,
            pro_len,
        ) by {
            if k >= head.len() {
                assert(plan[k] == tail[k - head.len()]);
            }
        }
        assert forall|k1: int, k2: int|
            0 <= k1 < k2 < plan.len() && (#[trigger] plan[k1]).leaderboard == (
            #[trigger] plan[k2]).leaderboard implies plan[k1].end <= plan[k2].start by {
            if k2 < head.len() {
                assert(k1 < nub.len() && k2 >= nub.len());
                assert(head[k1] == nub[k1]);
                assert(head[k2] == pro[k2 - nub.len()]);
            } else if k1 < head.len() {
                assert(plan[k2] == tail[k2 - head.len()]);
                assert(batch_fits(tail[k2 - head.len()], next, nub_len, pro_len));
            } else {
                assert(plan[k1] == tail[k1 - head.len()]);
                assert(plan[k2] == tail[k2 - head.len()]);
            }
        }
        assert forall|lb: Leaderboard, i: nat|
            start <= i < board_len(lb, nub_len, pro_len) implies #[trigger] writes(plan, lb, i) by {
            if i < next {
                if lb == Leaderboard::NUB {
                    assert(plan[0] == nub[0]);
                } else {
                    assert(plan[nub.len() as int] == pro[0]);
                }
            } else {
                assert(writes(tail, lb, i));
                let k = choose|k: int|
                    0 <= k < tail.len() && (#[trigger] tail[k]).leaderboard == lb && tail[k].start
                        <= i && i < tail[k].end;
                assert(plan[k + head.len()] == tail[k]);
            }
        }
    }
}

/// Every recalculated record is written by exactly one insert statement:
/// each statement writes between 1 and [`MAX_CHUNK_SIZE`] consecutive
/// records of one leaderboard, the statements of a leaderboard follow each
/// other in leaderboard order without overlapping, and together they cover
/// the whole leaderboard.
pub proof fn law_batches_write_each_record_once(nub_len: usize, pro_len: usize)
    ensures
        forall|k: int|
            0 <= k < batches_from(0, nub_len as nat, pro_len as nat).len() ==> batch_fits(
                #[trigger] batches_from(0, nub_len as nat, pro_len as nat)[k],
                0,
                nub_len as nat,
                pro_len as nat,
            ),
        forall|k1: int, k2: int|
            0 <= k1 < k2 < batches_from(0, nub_len as nat, pro_len as nat).len() && (
            #[trigger] batches_from(0, nub_len as nat, pro_len as nat)[k1]).leaderboard == (
            #[trigger] batches_from(0, nub_len as nat, pro_len as nat)[k2]).leaderboard
                ==> batches_from(0, nub_len as nat, pro_len as nat)[k1].end <= batches_from(
                0,
                nub_len as nat,
                pro_len as nat,
            )[k2].start,
        forall|lb: Leaderboard, i: nat|
            i < board_len(lb, nub_len as nat, pro_len as nat) ==> #[trigger] writes(
                batches_from(0, nub_len as nat, pro_len as nat),
                lb,
                i,
            ),
{
    lemma_batches_from(0, nub_len as nat, pro_len as nat);
}

} // verus!
