//! Maps as the API serves them, and the decisions made when maps are
//! created.

use crate::maps::{CourseId, FilterNotes, MapId, MapState, Tier};
use crate::mode::{Game, Mode};
use crate::users::{InvalidUsername, UserId, Username};
use vstd::prelude::*;

verus! {

/// The creator of a map or course.
#[derive(Debug)]
pub struct Mapper {
    pub id: UserId,
    pub name: Username,
}

/// The ID of a course filter.
#[derive(Debug, Clone, Copy, PartialEq, Eq, PartialOrd, Ord, Hash, Structural)]
pub struct FilterId(pub u16);

/// A course filter: the tiers and ranked status of a course in one mode.
#[derive(Debug)]
pub struct Filter {
    pub id: FilterId,
    pub nub_tier: Tier,
    pub pro_tier: Tier,
    pub ranked: bool,
    pub notes: FilterNotes,
}

/// The filters of a course: one per mode of the map's game.
#[derive(Debug)]
pub enum Filters {
    CS2 { vnl: Filter, ckz: Filter },
    CSGO { kzt: Filter, skz: Filter, vnl: Filter },
}

/// The content of a [`Filter`], with its notes as text.
pub struct FilterView {
    pub id: FilterId,
    pub nub_tier: Tier,
    pub pro_tier: Tier,
    pub ranked: bool,
    pub notes: Seq<char>,
}

impl View for Filter {
    type V = FilterView;

    open spec fn view(&self) -> FilterView {
        FilterView {
            id: self.id,
            nub_tier: self.nub_tier,
            pro_tier: self.pro_tier,
            ranked: self.ranked,
            notes: self.notes.text(),
        }
    }
}

/// The content of [`Filters`].
pub enum FiltersView {
    CS2 { vnl: FilterView, ckz: FilterView },
    CSGO { kzt: FilterView, skz: FilterView, vnl: FilterView },
}

impl View for Filters {
    type V = FiltersView;

    open spec fn view(&self) -> FiltersView {
        match self {
            Filters::CS2 { vnl, ckz } => FiltersView::CS2 { vnl: vnl@, ckz: ckz@ },
            Filters::CSGO { kzt, skz, vnl } => FiltersView::CSGO { kzt: kzt@, skz: skz@, vnl: vnl@ },
        }
    }
}

/// The filters of a course whose first row is for `mode`: every filter of
/// the mode's game is `filter`.
pub open spec fn first_filters(mode: Mode, filter: FilterView) -> FiltersView {
    match mode.spec_game() {
        Game::CS2 => FiltersView::CS2 { vnl: filter, ckz: filter },
        Game::CSGO => FiltersView::CSGO { kzt: filter, skz: filter, vnl: filter },
    }
}

/// `filters` with the filter for `mode` replaced by `filter` (unchanged if
/// `mode` is not of the filters' game).
pub open spec fn set_filter(filters: FiltersView, mode: Mode, filter: FilterView) -> FiltersView {
    match (mode, filters) {
        (Mode::VanillaCS2, FiltersView::CS2 { ckz, .. }) => FiltersView::CS2 { vnl: filter, ckz },
        (Mode::Classic, FiltersView::CS2 { vnl, .. }) => FiltersView::CS2 { vnl, ckz: filter },
        (Mode::KZTimer, FiltersView::CSGO { skz, vnl, .. }) => FiltersView::CSGO {
            kzt: filter,
            skz,
            vnl,
        },
        (Mode::SimpleKZ, FiltersView::CSGO { kzt, vnl, .. }) => FiltersView::CSGO {
            kzt,
            skz: filter,
            vnl,
        },
        (Mode::VanillaCSGO, FiltersView::CSGO { kzt, skz, .. }) => FiltersView::CSGO {
            kzt,
            skz,
            vnl: filter,
        },
        _ => filters,
    }
}

/// Whether the filters are those of `game`.
pub open spec fn filters_view_for_game(filters: FiltersView, game: Game) -> bool {
    match filters {
        FiltersView::CS2 { .. } => game is CS2,
        FiltersView::CSGO { .. } => game is CSGO,
    }
}

/// The ID, state and creator of a map.
#[derive(Debug, Clone, Copy, PartialEq, Eq, Structural)]
pub struct Metadata {
    pub id: MapId,
    pub state: MapState,
    pub created_by: UserId,
}

/// A failure reported by the database.
#[derive(Debug)]
pub struct DatabaseError {
    pub message: String,
}

/// A failure reported by the Steam Web API.
#[derive(Debug)]
pub struct SteamApiError {
    pub message: String,
}

/// Why a map could not be created.
#[derive(Debug)]
pub enum CreateMapError {
    /// invalid mapper ID '{id}'
    InvalidMapperId(UserId),
    /// mapper with ID '{id}' has an invalid name
    InvalidMapperName { id: UserId, error: InvalidUsername },
    /// The Steam Web API failed.
    SteamApiError(SteamApiError),
    /// map is frozen
    MapIsFrozen { id: MapId, state: MapState },
    /// mapper did not create previous versions of the map
    NotTheMapper,
    /// The database failed.
    DatabaseError(DatabaseError),
}

/// Why a map could not be updated.
#[derive(Debug)]
pub enum UpdateMapError {
    /// invalid map ID
    InvalidMapId,
    /// invalid course ID
    InvalidCourseLocalId(u16),
    /// The database failed.
    DatabaseError(DatabaseError),
}

impl Filter {
    /// A copy of the filter (its notes are cloned).
    pub fn duplicate(&self) -> (r: Filter)
        ensures
            r.id == self.id,
            r.nub_tier == self.nub_tier,
            r.pro_tier == self.pro_tier,
            r.ranked == self.ranked,
            r.notes.text() == self.notes.text(),
            r@ == self@,
    {
        let notes = self.notes.duplicate();
        Filter {
            id: self.id,
            nub_tier: self.nub_tier,
            pro_tier: self.pro_tier,
            ranked: self.ranked,
            notes,
        }
    }
}

/// Whether the `Filters` variant is the one for `game`.
pub open spec fn filters_for_game(filters: Filters, game: Game) -> bool {
    match filters {
        Filters::CS2 { .. } => game is CS2,
        Filters::CSGO { .. } => game is CSGO,
    }
}

/// The filter that `filters` holds for `mode`, if it has one.
pub open spec fn filter_for_mode(filters: Filters, mode: Mode) -> Option<Filter> {
    match (mode, filters) {
        (Mode::VanillaCS2, Filters::CS2 { vnl, .. }) => Some(vnl),
        (Mode::Classic, Filters::CS2 { ckz, .. }) => Some(ckz),
        (Mode::KZTimer, Filters::CSGO { kzt, .. }) => Some(kzt),
        (Mode::SimpleKZ, Filters::CSGO { skz, .. }) => Some(skz),
        (Mode::VanillaCSGO, Filters::CSGO { vnl, .. }) => Some(vnl),
        _ => None,
    }
}

impl Filters {
    /// The filters of a course as first read from a row for `mode`: every
    /// filter of the mode's game starts out as a copy of `filter`.
    pub fn from_first_row(mode: Mode, filter: Filter) -> (r: Filters)
        ensures
            filters_for_game(r, mode.spec_game()),
            filter_for_mode(r, mode) == Some(filter),
            r@ == first_filters(mode, filter@),
    {
        match mode {
            Mode::VanillaCS2 => {
                let ckz = filter.duplicate();
                Filters::CS2 { vnl: filter, ckz }
            },
            Mode::Classic => {
                let vnl = filter.duplicate();
                Filters::CS2 { vnl, ckz: filter }
            },
            Mode::KZTimer => {
                let skz = filter.duplicate();
                let vnl = filter.duplicate();
                Filters::CSGO { kzt: filter, skz, vnl }
            },
            Mode::SimpleKZ => {
                let kzt = filter.duplicate();
                let vnl = filter.duplicate();
                Filters::CSGO { kzt, skz: filter, vnl }
            },
            Mode::VanillaCSGO => {
                let kzt = filter.duplicate();
                let skz = filter.duplicate();
                Filters::CSGO { kzt, skz, vnl: filter }
            },
        }
    }

    /// Replaces the filter for `mode`, which must belong to the game of these
    /// filters; the other filters stay as they are.
    pub fn set(&mut self, mode: Mode, filter: Filter)
        requires
            filters_for_game(*old(self), mode.spec_game()),
        ensures
            filters_for_game(*final(self), mode.spec_game()),
            filter_for_mode(*final(self), mode) == Some(filter),
            forall|m: Mode|
                m != mode ==> #[trigger] filter_for_mode(*final(self), m) == filter_for_mode(
                    *old(self),
                    m,
                ),
            final(self)@ == set_filter(old(self)@, mode, filter@),
    {
        match (mode, self) {
            (Mode::VanillaCS2, Filters::CS2 { vnl, .. }) => {
                *vnl = filter;
            },
            (Mode::Classic, Filters::CS2 { ckz, .. }) => {
                *ckz = filter;
            },
            (Mode::KZTimer, Filters::CSGO { kzt, .. }) => {
                *kzt = filter;
            },
            (Mode::SimpleKZ, Filters::CSGO { skz, .. }) => {
                *skz = filter;
            },
            (Mode::VanillaCSGO, Filters::CSGO { vnl, .. }) => {
                *vnl = filter;
            },
            (Mode::VanillaCS2, Filters::CSGO { .. }) | (Mode::Classic, Filters::CSGO { .. }) => {
                assert(false);
            },
            (Mode::KZTimer, Filters::CS2 { .. }) | (Mode::SimpleKZ, Filters::CS2 { .. }) | (
                Mode::VanillaCSGO,
                Filters::CS2 { .. },
            ) => {
                assert(false);
            },
        }
    }
}

/// The modes whose filters are listed for maps of `game`, in order; CS2 has
/// two modes, so its third entry is `None`.
pub open spec fn listed_modes(game: Game) -> (Option<Mode>, Option<Mode>, Option<Mode>) {
    match game {
        Game::CS2 => (Some(Mode::VanillaCS2), Some(Mode::Classic), None),
        Game::CSGO => (Some(Mode::KZTimer), Some(Mode::SimpleKZ), Some(Mode::VanillaCSGO)),
    }
}

/// The modes whose filters are fetched when listing maps of `game`.
pub fn modes_of_game(game: Game) -> (r: (Option<Mode>, Option<Mode>, Option<Mode>))
    ensures
        r == listed_modes(game),
        r.0 matches Some(m) ==> m.spec_game() == game,
        r.1 matches Some(m) ==> m.spec_game() == game,
        r.2 matches Some(m) ==> m.spec_game() == game,
{
    match game {
        Game::CS2 => (Some(Mode::VanillaCS2), Some(Mode::Classic), None),
        Game::CSGO => (Some(Mode::KZTimer), Some(Mode::SimpleKZ), Some(Mode::VanillaCSGO)),
    }
}

/// The outcome of checking earlier versions of a map before a new version is
/// created: the IDs of the versions to invalidate, or why the
/// new version is refused.
///
/// A frozen earlier version (the first one found) refuses the submission.
/// Without earlier versions nothing is invalidated. Otherwise the submitter
/// must be the creator of the first earlier version, and then every earlier
/// version is invalidated.
pub open spec fn invalidation_outcome(old_versions: Seq<(MapId, MapState, UserId)>, submitter: UserId) -> Result<
    Seq<MapId>,
    (MapId, MapState),
> {
    if exists|i: int| 0 <= i < old_versions.len() && (#[trigger] old_versions[i]).1.frozen() {
        let i = choose|i: int|
            0 <= i < old_versions.len() && (#[trigger] old_versions[i]).1.frozen() && forall|k: int|
                0 <= k < i ==> !(#[trigger] old_versions[k]).1.frozen();
        Err((old_versions[i].0, old_versions[i].1))
    } else if old_versions.len() == 0 {
        Ok(Seq::empty())
    } else if old_versions[0].2 != submitter {
        Err((old_versions[0].0, old_versions[0].1))
    } else {
        Ok(old_versions.map_values(|v: (MapId, MapState, UserId)| v.0))
    }
}

/// Decides what happens to earlier versions of a map (with the same name and
/// game) when `submitter` creates a new version.
///
/// Returns the IDs of the versions to invalidate. A frozen earlier version
/// gives [`CreateMapError::MapIsFrozen`] for the first such version; a
/// submitter who did not create the first earlier version gets
/// [`CreateMapError::NotTheMapper`].
pub fn plan_invalidation(old_versions: &Vec<(MapId, MapState, UserId)>, submitter: UserId) -> (r:
    Result<Vec<MapId>, CreateMapError>)
    ensures
        invalidation_outcome(old_versions@, submitter) matches Ok(ids) ==> (r matches Ok(v) && v@
            == ids),
        (exists|i: int| 0 <= i < old_versions.len() && (#[trigger] old_versions@[i]).1.frozen())
            ==> (r matches Err(CreateMapError::MapIsFrozen { id, state }) && invalidation_outcome(
            old_versions@,
            submitter,
        ) == Err::<Seq<MapId>, (MapId, MapState)>((id, state))),
        (!exists|i: int| 0 <= i < old_versions.len() && (#[trigger] old_versions@[i]).1.frozen())
            && old_versions.len() > 0 && old_versions@[0].2 != submitter ==> r matches Err(
            CreateMapError::NotTheMapper,
        ),
{
    let mut i: usize = 0;
    while i < old_versions.len()
        invariant
            i <= old_versions.len(),
            forall|k: int| 0 <= k < i ==> !(#[trigger] old_versions@[k]).1.frozen(),
        decreases old_versions.len() - i,
    {
        let (id, state, _) = old_versions[i];
        if state.is_frozen() {
            proof {
                let j = choose|j: int|
                    0 <= j < old_versions.len() && (#[trigger] old_versions@[j]).1.frozen()
                        && forall|k: int| 0 <= k < j ==> !(#[trigger] old_versions@[k]).1.frozen();
                assert(j == i) by {
                    if j < i {
                    } else if j > i {
                        assert(!old_versions@[i as int].1.frozen());
                    }
                }
            }
            return Err(CreateMapError::MapIsFrozen { id, state });
        }
        i = i + 1;
    }
    if old_versions.len() == 0 {
        return Ok(Vec::new());
    }
    if old_versions[0].2 != submitter {
        return Err(CreateMapError::NotTheMapper);
    }
    let mut ids: Vec<MapId> = Vec::new();
    let mut j: usize = 0;
    while j < old_versions.len()
        invariant
            j <= old_versions.len(),
            ids@ == old_versions@.take(j as int).map_values(|v: (MapId, MapState, UserId)| v.0),
        decreases old_versions.len() - j,
    {
        ids.push(old_versions[j].0);
        proof {
            assert(old_versions@.take(j + 1).map_values(|v: (MapId, MapState, UserId)| v.0)
                =~= old_versions@.take(j as int).map_values(|v: (MapId, MapState, UserId)| v.0).push(
                old_versions@[j as int].0,
            ));
        }
        j = j + 1;
    }
    proof {
        assert(old_versions@.take(old_versions.len() as int) =~= old_versions@);
    }
    Ok(ids)
}

/// The course that the map's course list gives the local ID `local_id`.
///
/// `courses` pairs local IDs with course IDs as the database lists them;
/// when a local ID occurs more than once, the last pair counts (as when the
/// pairs are collected into a map).
pub open spec fn course_for_local_id(courses: Seq<(u16, CourseId)>, local_id: u16) -> Option<
    CourseId,
>
    decreases courses.len(),
{
    if courses.len() == 0 {
        None
    } else if courses.last().0 == local_id {
        Some(courses.last().1)
    } else {
        course_for_local_id(courses.drop_last(), local_id)
    }
}

/// Finds the course that a course update addresses by its local ID:
/// an unknown local ID is refused.
pub fn find_course_by_local_id(courses: &Vec<(u16, CourseId)>, local_id: u16) -> (r: Result<
    CourseId,
    UpdateMapError,
>)
    ensures
        course_for_local_id(courses@, local_id) matches Some(id) ==> (r matches Ok(found) && found
            == id),
        course_for_local_id(courses@, local_id) is None ==> (r matches Err(
            UpdateMapError::InvalidCourseLocalId(l),
        ) && l == local_id),
{
    let mut i: usize = courses.len();
    proof {
        assert(courses@.take(i as int) =~= courses@);
    }
    while i > 0
        invariant
            i <= courses.len(),
            course_for_local_id(courses@, local_id) == course_for_local_id(
                courses@.take(i as int),
                local_id,
            ),
        decreases i,
    {
        proof {
            assert(courses@.take(i as int).drop_last() =~= courses@.take(i - 1));
        }
        let (l, id) = courses[i - 1];
        if l == local_id {
            return Ok(id);
        }
        i = i - 1;
    }
    Err(UpdateMapError::InvalidCourseLocalId(local_id))
}

/// The tiers, ranked status and notes of a filter to create.
#[derive(Debug)]
pub struct NewFilter {
    pub nub_tier: Tier,
    pub pro_tier: Tier,
    pub ranked: bool,
    pub notes: FilterNotes,
}

/// The filters to create for a CS2 course.
#[derive(Debug)]
pub struct NewCS2Filters {
    pub vnl: NewFilter,
    pub ckz: NewFilter,
}

/// The filters to create for a CS:GO course.
#[derive(Debug)]
pub struct NewCSGOFilters {
    pub kzt: NewFilter,
    pub skz: NewFilter,
    pub vnl: NewFilter,
}

/// The filters to create for a course, per game.
#[derive(Debug)]
pub struct NewFilters {
    pub cs2: Option<NewCS2Filters>,
    pub csgo: Option<NewCSGOFilters>,
}

/// The modes of the filters that are created for `filters`, in the order
/// they are created: the CS:GO filters (KZT, SKZ, VNL) first, then the CS2
/// filters (VNL, CKZ).
pub open spec fn creation_modes(filters: NewFilters) -> Seq<Mode> {
    (if filters.csgo is Some {
        seq![Mode::KZTimer, Mode::SimpleKZ, Mode::VanillaCSGO]
    } else {
        seq![]
    }) + (if filters.cs2 is Some {
        seq![Mode::VanillaCS2, Mode::Classic]
    } else {
        seq![]
    })
}

/// The filter that `filters` holds for `mode`.
pub open spec fn new_filter_for(filters: NewFilters, mode: Mode) -> Option<NewFilter> {
    match (mode, filters.cs2, filters.csgo) {
        (Mode::VanillaCS2, Some(cs2), _) => Some(cs2.vnl),
        (Mode::Classic, Some(cs2), _) => Some(cs2.ckz),
        (Mode::KZTimer, _, Some(csgo)) => Some(csgo.kzt),
        (Mode::SimpleKZ, _, Some(csgo)) => Some(csgo.skz),
        (Mode::VanillaCSGO, _, Some(csgo)) => Some(csgo.vnl),
        _ => None,
    }
}

/// Lists the filters to create for a course with their modes, in the order
/// a course's filters are created (see [`creation_modes`]).
pub fn filters_in_creation_order(filters: NewFilters) -> (r: Vec<(Mode, NewFilter)>)
    ensures
        r@.len() == creation_modes(filters).len(),
        forall|i: int|
            0 <= i < r@.len() ==> (#[trigger] r@[i]).0 == creation_modes(filters)[i]
                && new_filter_for(filters, r@[i].0) == Some(r@[i].1),
{
    let ghost given = filters;
    let mut out: Vec<(Mode, NewFilter)> = Vec::new();
    let NewFilters { cs2, csgo } = filters;
    if let Some(NewCSGOFilters { kzt, skz, vnl }) = csgo {
        out.push((Mode::KZTimer, kzt));
        out.push((Mode::SimpleKZ, skz));
        out.push((Mode::VanillaCSGO, vnl));
    }
    if let Some(NewCS2Filters { vnl, ckz }) = cs2 {
        out.push((Mode::VanillaCS2, vnl));
        out.push((Mode::Classic, ckz));
    }
    proof {
        let modes = creation_modes(given);
        assert(out@.len() == modes.len());
        assert forall|i: int| 0 <= i < out@.len() implies (#[trigger] out@[i]).0 == modes[i]
            && new_filter_for(given, out@[i].0) == Some(out@[i].1) by {
            if given.csgo is Some {
                if i >= 3 {
                    assert(modes[i] == seq![Mode::VanillaCS2, Mode::Classic][i - 3]);
                }
            } else {
                assert(modes[i] == seq![Mode::VanillaCS2, Mode::Classic][i]);
            }
        }
    }
    out
}

} // verus!
