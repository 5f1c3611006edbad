//! The decisions made while applying `PATCH /maps/{map_id}` with a list of
//! course updates: which courses and filters an update may name, and which
//! columns of a filter each filter update sets.

use crate::kz::RankedStatus;
use crate::maps::Tier;
use vstd::prelude::*;

verus! {

/// Why a map update was refused.
#[derive(Debug, Clone, Copy, PartialEq, Eq, Structural)]
pub enum MapUpdateError {
    /// The map has no courses, so there is no such map.
    UnknownMap { map_id: u16 },
    /// An update names a course that is not one of the map's courses.
    InvalidCourse { course_id: u32, map_id: u16 },
    /// An update names a filter that is not one of the course's filters.
    InvalidFilter { filter_id: u32, course_id: u32 },
    /// A filter update ranks a filter whose tier is too high to be ranked.
    TierTooHighForRanked { filter_id: u32 },
}

/// A column of a course filter that a filter update sets.
#[derive(Debug, Clone, Copy, PartialEq, Eq, Structural)]
pub enum FilterColumn {
    Tier,
    RankedStatus,
    Notes,
}

/// Whether `id` occurs in `ids`.
pub open spec fn has_id(ids: Seq<u32>, id: u32) -> bool {
    exists|i: int| 0 <= i < ids.len() && ids[i] == id
}

/// The first ID among `requested[j..]` that is not in `known`.
pub open spec fn first_unknown(known: Seq<u32>, requested: Seq<u32>, j: int) -> Option<u32>
    decreases requested.len() - j,
{
    if j < 0 || j >= requested.len() {
        None
    } else if !has_id(known, requested[j]) {
        Some(requested[j])
    } else {
        first_unknown(known, requested, j + 1)
    }
}

/// What [`first_unknown`] reports: nothing exactly when every requested ID
/// from `j` on is known, and otherwise a requested ID that is not known,
/// with every ID before it known.
pub proof fn lemma_first_unknown(known: Seq<u32>, requested: Seq<u32>, j: int)
    requires
        0 <= j <= requested.len(),
    ensures
        first_unknown(known, requested, j) is None <==> (forall|i: int|
            j <= i < requested.len() ==> has_id(known, #[trigger] requested[i])),
        first_unknown(known, requested, j) matches Some(id) ==> exists|i: int|
            j <= i < requested.len() && requested[i] == id && !has_id(known, id) && (forall|
                m: int,
            | j <= m < i ==> has_id(known, #[trigger] requested[m])),
    decreases requested.len() - j,
{
    if j < requested.len() {
        lemma_first_unknown(known, requested, j + 1);
    }
}

/// A map update passes the course check only if the map exists and every
/// course it names is one of the map's courses; a refused update names the
/// first course that is not.
pub proof fn law_checked_courses_belong_to_map(
    map_id: u16,
    map_courses: Seq<u32>,
    updated_courses: Seq<u32>,
)
    ensures
        (map_courses.len() > 0 && first_unknown(map_courses, updated_courses, 0) is None) <==> (
        map_courses.len() > 0 && forall|i: int|
            0 <= i < updated_courses.len() ==> has_id(map_courses, #[trigger] updated_courses[i])),
        first_unknown(map_courses, updated_courses, 0) matches Some(id) ==> !has_id(map_courses, id)
            && has_id(updated_courses, id),
{
    lemma_first_unknown(map_courses, updated_courses, 0);
}

fn contains_id(ids: &Vec<u32>, id: u32) -> (r: bool)
    ensures
        r == has_id(ids@, id),
{
    let mut i: usize = 0;
    while i < ids.len()
        invariant
            i <= ids.len(),
            forall|k: int| 0 <= k < i ==> ids@[k] != id,
        decreases ids.len() - i,
    {
        if ids[i] == id {
            return true;
        }
        i = i + 1;
    }
    false
}

/// The first of `requested` that is not in `known`, if any.
fn find_unknown(known: &Vec<u32>, requested: &Vec<u32>) -> (r: Option<u32>)
    ensures
        r == first_unknown(known@, requested@, 0),
{
    let mut j: usize = 0;
    while j < requested.len()
        invariant
            j <= requested.len(),
            first_unknown(known@, requested@, 0) == first_unknown(known@, requested@, j as int),
        decreases requested.len() - j,
    {
        let id = requested[j];
        if !contains_id(known, id) {
            return Some(id);
        }
        j = j + 1;
    }
    None
}

/// Checks the courses named by a map update: the map
/// must have courses at all, and every course an update names must be one
/// of them. The first course that is not is reported.
///
/// `map_courses` are the IDs of the map's courses, `updated_courses` the IDs
/// named by the course updates, in order.
pub fn check_courses(map_id: u16, map_courses: &Vec<u32>, updated_courses: &Vec<u32>) -> (r: Result<
    (),
    MapUpdateError,
>)
    ensures
        map_courses.len() == 0 ==> r == Err::<(), MapUpdateError>(
            MapUpdateError::UnknownMap { map_id },
        ),
        map_courses.len() > 0 && first_unknown(map_courses@, updated_courses@, 0) is None ==> r is Ok,
        map_courses.len() > 0 ==> (first_unknown(map_courses@, updated_courses@, 0) matches Some(
            course_id,
        ) ==> r == Err::<(), MapUpdateError>(MapUpdateError::InvalidCourse { course_id, map_id })),
{
    if map_courses.len() == 0 {
        return Err(MapUpdateError::UnknownMap { map_id });
    }
    match find_unknown(map_courses, updated_courses) {
        Some(course_id) => Err(MapUpdateError::InvalidCourse { course_id, map_id }),
        None => Ok(()),
    }
}

/// Checks the filters named by the update of one course:
/// every filter must be one of the course's filters. The first filter that
/// is not is reported.
pub fn check_filters(course_id: u32, course_filters: &Vec<u32>, updated_filters: &Vec<u32>) -> (r:
    Result<(), MapUpdateError>)
    ensures
        first_unknown(course_filters@, updated_filters@, 0) is None ==> r is Ok,
        first_unknown(course_filters@, updated_filters@, 0) matches Some(filter_id) ==> r == Err::<
            (),
            MapUpdateError,
        >(MapUpdateError::InvalidFilter { filter_id, course_id }),
{
    match find_unknown(course_filters, updated_filters) {
        Some(filter_id) => Err(MapUpdateError::InvalidFilter { filter_id, course_id }),
        None => Ok(()),
    }
}

/// The columns that an update of a filter sets, in the order of the
/// statement: the tier if given, the ranked status if given, the notes if
/// given.
pub open spec fn set_columns(has_tier: bool, has_ranked_status: bool, has_notes: bool) -> Seq<
    FilterColumn,
> {
    (if has_tier {
        seq![FilterColumn::Tier]
    } else {
        seq![]
    }) + (if has_ranked_status {
        seq![FilterColumn::RankedStatus]
    } else {
        seq![]
    }) + (if has_notes {
        seq![FilterColumn::Notes]
    } else {
        seq![]
    })
}

/// What an update of one filter does: nothing if it changes neither the
/// tier nor the ranked status (even if it carries notes), a refusal if it
/// ranks the filter with a tier above [`Tier::Death`], and otherwise the
/// columns it sets.
pub open spec fn filter_update_plan(
    filter_id: u32,
    tier: Option<Tier>,
    ranked_status: Option<RankedStatus>,
    has_notes: bool,
) -> Result<Seq<FilterColumn>, MapUpdateError> {
    if tier is None && ranked_status is None {
        Ok(seq![])
    } else if (tier matches Some(t) && t.level() > Tier::Death.level()) && ranked_status == Some(
        RankedStatus::Ranked,
    ) {
        Err(MapUpdateError::TierTooHighForRanked { filter_id })
    } else {
        Ok(set_columns(tier is Some, ranked_status is Some, has_notes))
    }
}

/// Plans the update of one filter, as
/// [`filter_update_plan`] says.
pub fn plan_filter_update(
    filter_id: u32,
    tier: Option<Tier>,
    ranked_status: Option<RankedStatus>,
    has_notes: bool,
) -> (r: Result<Vec<FilterColumn>, MapUpdateError>)
    ensures
        (r is Ok) == (filter_update_plan(filter_id, tier, ranked_status, has_notes) is Ok),
        r matches Ok(columns) ==> Ok::<Seq<FilterColumn>, MapUpdateError>(columns@)
            == filter_update_plan(filter_id, tier, ranked_status, has_notes),
        r matches Err(e) ==> Err::<Seq<FilterColumn>, MapUpdateError>(e) == filter_update_plan(
            filter_id,
            tier,
            ranked_status,
            has_notes,
        ),
        (r is Err) == ((tier == Some(Tier::Unfeasible) || tier == Some(Tier::Impossible))
            && ranked_status == Some(RankedStatus::Ranked)),
{
    if tier.is_none() && ranked_status.is_none() {
        let none: Vec<FilterColumn> = Vec::new();
        proof {
            assert(none@ =~= Seq::<FilterColumn>::empty());
        }
        return Ok(none);
    }
    let too_hard = match tier {
        Some(t) => t.number() > Tier::Death.number(),
        None => false,
    };
    let ranked = match ranked_status {
        Some(status) => status.is_ranked(),
        None => false,
    };
    if too_hard && ranked {
        return Err(MapUpdateError::TierTooHighForRanked { filter_id });
    }
    let mut columns: Vec<FilterColumn> = Vec::new();
    if tier.is_some() {
        columns.push(FilterColumn::Tier);
    }
    if ranked_status.is_some() {
        columns.push(FilterColumn::RankedStatus);
    }
    if has_notes {
        columns.push(FilterColumn::Notes);
    }
    proof {
        assert(columns@ =~= set_columns(tier is Some, ranked_status is Some, has_notes));
    }
    Ok(columns)
}

/// A filter update is refused exactly when it ranks the filter while giving
/// it a tier no human can complete (unfeasible or impossible); the refusal
/// names the filter. An accepted update that changes the tier or the ranked
/// status sets the tier column exactly when it gives a tier, the ranked
/// status column exactly when it gives one, and the notes column exactly
/// when it carries notes, in that order; an update that changes neither sets
/// nothing.
pub proof fn law_filter_update_plan(
    filter_id: u32,
    tier: Option<Tier>,
    ranked_status: Option<RankedStatus>,
    has_notes: bool,
)
    ensures
        (filter_update_plan(filter_id, tier, ranked_status, has_notes) is Err) == ((tier == Some(
            Tier::Unfeasible,
        ) || tier == Some(Tier::Impossible)) && ranked_status == Some(RankedStatus::Ranked)),
        filter_update_plan(filter_id, tier, ranked_status, has_notes) matches Err(e) ==> e
            == (MapUpdateError::TierTooHighForRanked { filter_id }),
        tier is None && ranked_status is None ==> filter_update_plan(
            filter_id,
            tier,
            ranked_status,
            has_notes,
        ) == Ok::<Seq<FilterColumn>, MapUpdateError>(Seq::empty()),
        !(tier is None && ranked_status is None) ==> (filter_update_plan(
            filter_id,
            tier,
            ranked_status,
            has_notes,
        ) matches Ok(columns) ==> {
            &&& columns.contains(FilterColumn::Tier) == (tier is Some)
            &&& columns.contains(FilterColumn::RankedStatus) == (ranked_status is Some)
            &&& columns.contains(FilterColumn::Notes) == has_notes
            &&& forall|i: int, j: int|
                0 <= i < j < columns.len() ==> column_rank(#[trigger] columns[i]) < column_rank(
                    #[trigger] columns[j],
                )
        }),
{
    let plan = filter_update_plan(filter_id, tier, ranked_status, has_notes);
    if !(tier is None && ranked_status is None) {
        if let Ok(columns) = plan {
            let a: Seq<FilterColumn> = if tier is Some {
                seq![FilterColumn::Tier]
            } else {
                seq![]
            };
            let b: Seq<FilterColumn> = if ranked_status is Some {
                seq![FilterColumn::RankedStatus]
            } else {
                seq![]
            };
            let c: Seq<FilterColumn> = if has_notes {
                seq![FilterColumn::Notes]
            } else {
                seq![]
            };
            assert(columns == a + b + c);
            assert(columns.contains(FilterColumn::Tier) == (tier is Some)) by {
                if tier is Some {
                    assert(columns[0] == FilterColumn::Tier);
                }
            }
            assert(columns.contains(FilterColumn::RankedStatus) == (ranked_status is Some)) by {
                if ranked_status is Some {
                    assert(columns[a.len() as int] == FilterColumn::RankedStatus);
                }
            }
            assert(columns.contains(FilterColumn::Notes) == has_notes) by {
                if has_notes {
                    assert(columns[(a.len() + b.len()) as int] == FilterColumn::Notes);
                }
            }
            assert forall|i: int, j: int| 0 <= i < j < columns.len() implies column_rank(
                #[trigger] columns[i],
            ) < column_rank(#[trigger] columns[j]) by {
                if i < a.len() {
                    assert(columns[i] == FilterColumn::Tier);
                } else if i < a.len() + b.len() {
                    assert(columns[i] == FilterColumn::RankedStatus);
                    assert(columns[j] == FilterColumn::Notes);
                }
                if j >= a.len() + b.len() {
                    assert(columns[j] == FilterColumn::Notes);
                } else if j >= a.len() {
                    assert(columns[j] == FilterColumn::RankedStatus);
                }
            }
        }
    }
}

/// The position of a column in the statement: tier, ranked status, notes.
pub open spec fn column_rank(c: FilterColumn) -> int {
    match c {
        FilterColumn::Tier => 0,
        FilterColumn::RankedStatus => 1,
        FilterColumn::Notes => 2,
    }
}

} // verus!
