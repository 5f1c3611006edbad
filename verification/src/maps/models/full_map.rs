//! Maps as the database returns them, and how rows of the same map are
//! merged.

use super::{CourseID, FilterID, MapID};
use vstd::prelude::*;
use crate::kz::{GlobalStatus, Mode, RankedStatus, SteamID};
use crate::maps::Tier;
use crate::players::models::{
    add_new_players, append_new_players, has_player, lemma_add_new_players, unique_players, Player,
};

verus! {

/// A KZ map course filter.
///
/// A filter is a combination of mode and whether teleports are allowed.
/// Since there are 2 modes, there are 4 filters per course.
/// Each filter has its own tier and ranked status.
#[derive(Debug)]
pub struct CourseFilter {
    /// The filter's ID.
    pub id: FilterID,
    /// The filter's mode.
    pub mode: Mode,
    /// Whether teleports are allowed.
    pub teleports: bool,
    /// The filter's tier.
    pub tier: Tier,
    /// The filter's ranked status.
    pub ranked_status: RankedStatus,
    /// Notes about the filter.
    pub notes: Option<String>,
}

/// A KZ map course.
#[derive(Debug)]
pub struct Course {
    /// The course's ID.
    pub id: CourseID,
    /// The course's name.
    pub name: Option<String>,
    /// A description of the course.
    pub description: Option<String>,
    /// The course's creators.
    pub mappers: Vec<Player>,
    /// The course's filters.
    pub filters: Vec<CourseFilter>,
}

/// A KZ map.
#[derive(Debug)]
pub struct FullMap {
    /// The map's ID.
    pub id: MapID,
    /// The map's name.
    pub name: String,
    /// A description of the map.
    pub description: Option<String>,
    /// The current global status of the map.
    pub global_status: GlobalStatus,
    /// The map's Steam Workshop ID.
    pub workshop_id: u32,
    /// The map's file checksum.
    pub checksum: u32,
    /// The map's creators.
    pub mappers: Vec<Player>,
    /// The map's courses.
    pub courses: Vec<Course>,
    /// When this map was approved, in seconds since the Unix epoch (UTC).
    pub created_on: i64,
}

/// The mathematical content of a [`Course`].
pub struct CourseView {
    pub id: CourseID,
    pub name: Option<String>,
    pub description: Option<String>,
    pub mappers: Seq<Player>,
    pub filters: Seq<CourseFilter>,
}

/// The mathematical content of a [`FullMap`].
pub struct FullMapView {
    pub id: MapID,
    pub name: String,
    pub description: Option<String>,
    pub global_status: GlobalStatus,
    pub workshop_id: u32,
    pub checksum: u32,
    pub mappers: Seq<Player>,
    pub courses: Seq<CourseView>,
    pub created_on: i64,
}

impl View for Course {
    type V = CourseView;

    open spec fn view(&self) -> CourseView {
        CourseView {
            id: self.id,
            name: self.name,
            description: self.description,
            mappers: self.mappers@,
            filters: self.filters@,
        }
    }
}

/// The views of a sequence of courses.
pub open spec fn course_views(courses: Seq<Course>) -> Seq<CourseView> {
    courses.map_values(|c: Course| c@)
}

impl View for FullMap {
    type V = FullMapView;

    open spec fn view(&self) -> FullMapView {
        FullMapView {
            id: self.id,
            name: self.name,
            description: self.description,
            global_status: self.global_status,
            workshop_id: self.workshop_id,
            checksum: self.checksum,
            mappers: self.mappers@,
            courses: course_views(self.courses@),
            created_on: self.created_on,
        }
    }
}

/// Whether some filter in `filters` has the ID `id`.
pub open spec fn has_filter(filters: Seq<CourseFilter>, id: FilterID) -> bool {
    exists|i: int| 0 <= i < filters.len() && (#[trigger] filters[i]).id == id
}

/// Appends, in order, each filter of `new` whose ID is not yet among the
/// filters gathered so far.
pub open spec fn add_new_filters(acc: Seq<CourseFilter>, new: Seq<CourseFilter>) -> Seq<
    CourseFilter,
>
    decreases new.len(),
{
    if new.len() == 0 {
        acc
    } else {
        let next = if has_filter(acc, new[0].id) {
            acc
        } else {
            acc.push(new[0])
        };
        add_new_filters(next, new.drop_first())
    }
}

/// The position of the first course in `courses` with the ID `id`, searching
/// from `from`.
pub open spec fn find_course(courses: Seq<CourseView>, id: CourseID, from: int) -> Option<int>
    decreases courses.len() - from,
{
    if from < 0 || from >= courses.len() {
        None
    } else if courses[from].id == id {
        Some(from)
    } else {
        find_course(courses, id, from + 1)
    }
}

/// What [`find_course`] returns: the first matching position at or after
/// `from`, if any.
pub proof fn lemma_find_course(courses: Seq<CourseView>, id: CourseID, from: int)
    requires
        0 <= from,
    ensures
        find_course(courses, id, from) matches Some(i) ==> from <= i < courses.len()
            && courses[i].id == id && forall|k: int|
            from <= k < i ==> (#[trigger] courses[k]).id != id,
        find_course(courses, id, from) is None ==> forall|k: int|
            from <= k < courses.len() ==> (#[trigger] courses[k]).id != id,
    decreases courses.len() - from,
{
    if from < courses.len() && courses[from].id != id {
        lemma_find_course(courses, id, from + 1);
    }
}

/// `c` with the mappers and filters of `other` that it lacks added.
pub open spec fn merge_course(c: CourseView, other: CourseView) -> CourseView {
    CourseView {
        mappers: add_new_players(c.mappers, other.mappers),
        filters: add_new_filters(c.filters, other.filters),
        ..c
    }
}

/// Folds each course of `new` into `acc`: a course whose ID is already present
/// is merged into the first course with that ID, any other course is
/// appended.
pub open spec fn merge_courses(acc: Seq<CourseView>, new: Seq<CourseView>) -> Seq<CourseView>
    decreases new.len(),
{
    if new.len() == 0 {
        acc
    } else {
        let next = match find_course(acc, new[0].id, 0) {
            Some(i) => acc.update(i, merge_course(acc[i], new[0])),
            None => acc.push(new[0]),
        };
        merge_courses(next, new.drop_first())
    }
}

/// `map` with the mappers and courses of `other` merged in; everything else
/// is kept from `map`.
#[verifier::opaque]
pub open spec fn merge_map(map: FullMapView, other: FullMapView) -> FullMapView {
    FullMapView {
        mappers: add_new_players(map.mappers, other.mappers),
        courses: merge_courses(map.courses, other.courses),
        ..map
    }
}

/// Merging keeps the ID and metadata of the first map.
pub proof fn lemma_merge_map_keeps_id(map: FullMapView, other: FullMapView)
    ensures
        merge_map(map, other).id == map.id,
        merge_map(map, other) == (FullMapView {
            mappers: add_new_players(map.mappers, other.mappers),
            courses: merge_courses(map.courses, other.courses),
            ..map
        }),
{
    reveal(merge_map);
}

/// Whether some filter in `filters` has ID `id` (scanning the whole vector).
fn contains_filter(filters: &Vec<CourseFilter>, id: FilterID) -> (r: bool)
    ensures
        r == has_filter(filters@, id),
{
    let mut i: usize = 0;
    while i < filters.len()
        invariant
            i <= filters.len(),
            forall|k: int| 0 <= k < i ==> (#[trigger] filters@[k]).id != id,
        decreases filters.len() - i,
    {
        if filters[i].id == id {
            return true;
        }
        i = i + 1;
    }
    false
}

/// Moves each filter of `new` whose ID is not yet in `filters` to the end of
/// `filters`, in order.
fn append_new_filters(filters: &mut Vec<CourseFilter>, new: Vec<CourseFilter>)
    ensures
        final(filters)@ == add_new_filters(old(filters)@, new@),
{
    let ghost new_view = new@;
    proof {
        assert(new_view.skip(0) =~= new_view);
    }
    for f in it: new.into_iter()
        invariant
            it.seq() == new_view,
            add_new_filters(old(filters)@, new_view) == add_new_filters(
                filters@,
                new_view.skip(it.index() as int),
            ),
    {
        proof {
            assert(new_view.skip(it.index() as int)[0] == f);
            assert(new_view.skip(it.index() as int).drop_first() =~= new_view.skip(
                it.index() + 1,
            ));
        }
        if !contains_filter(filters, f.id) {
            filters.push(f);
        }
    }
    proof {
        assert(new_view.skip(new_view.len() as int) =~= Seq::<CourseFilter>::empty());
    }
}

/// The position of the first course in `courses` with ID `id`.
fn position_of_course(courses: &Vec<Course>, id: CourseID) -> (r: Option<usize>)
    ensures
        r matches Some(i) ==> find_course(course_views(courses@), id, 0) == Some(i as int),
        r is None ==> find_course(course_views(courses@), id, 0) is None,
{
    let ghost views = course_views(courses@);
    let mut i: usize = 0;
    while i < courses.len()
        invariant
            i <= courses.len(),
            views == course_views(courses@),
            views.len() == courses.len(),
            find_course(views, id, 0) == find_course(views, id, i as int),
        decreases courses.len() - i,
    {
        if courses[i].id == id {
            return Some(i);
        }
        i = i + 1;
    }
    None
}

impl Course {
    /// Adds the mappers and filters of `other` that this course lacks.
    fn absorb(&mut self, other: Course)
        ensures
            final(self)@ == merge_course(old(self)@, other@),
    {
        append_new_players(&mut self.mappers, other.mappers);
        append_new_filters(&mut self.filters, other.filters);
    }
}

impl FullMap {
    /// Merges `other` into `self` by taking `other`'s mappers and courses.
    ///
    /// Mappers are told apart by SteamID, courses and filters by ID; whatever
    /// `self` already has is kept as it is and the rest is appended in order.
    /// The two maps must have the same ID.
    pub fn merge(self, other: Self) -> (r: Self)
        requires
            self.id == other.id,
        ensures
            r@ == merge_map(self@, other@),
    {
        let mut this = self;
        append_new_players(&mut this.mappers, other.mappers);
        let ghost other_courses = course_views(other.courses@);
        let ghost start = course_views(this.courses@);
        proof {
            assert(other_courses.skip(0) =~= other_courses);
        }
        for course in it: other.courses.into_iter()
            invariant
                course_views(it.seq()) == other_courses,
                this.id == self.id,
                this.name == self.name,
                this.description == self.description,
                this.global_status == self.global_status,
                this.workshop_id == self.workshop_id,
                this.checksum == self.checksum,
                this.created_on == self.created_on,
                this.mappers@ == add_new_players(self.mappers@, other.mappers@),
                start == course_views(self.courses@),
                other_courses == course_views(other.courses@),
                it.seq().len() == other_courses.len(),
                merge_courses(start, other_courses) == merge_courses(
                    course_views(this.courses@),
                    other_courses.skip(it.index() as int),
                ),
        {
            let ghost before = course_views(this.courses@);
            proof {
                assert(other_courses.skip(it.index() as int)[0] == course@);
                assert(other_courses.skip(it.index() as int).drop_first() =~= other_courses.skip(
                    it.index() + 1,
                ));
            }
            let pos = position_of_course(&this.courses, course.id);
            proof {
                lemma_find_course(before, course.id, 0);
            }
            match pos {
                Some(i) => {
                    let mut c = this.courses.remove(i);
                    c.absorb(course);
                    this.courses.insert(i, c);
                    proof {
                        assert(course_views(this.courses@) =~= before.update(
                            i as int,
                            merge_course(before[i as int], course@),
                        ));
                    }
                },
                None => {
                    this.courses.push(course);
                    proof {
                        assert(course_views(this.courses@) =~= before.push(course@));
                    }
                },
            }
        }
        proof {
            assert(other_courses.skip(other_courses.len() as int) =~= Seq::<CourseView>::empty());
            reveal(merge_map);
        }
        this
    }
}

} // verus!

verus! {

/// The views of a sequence of maps.
pub open spec fn map_views(maps: Seq<FullMap>) -> Seq<FullMapView> {
    maps.map_values(|m: FullMap| m@)
}

/// Folds `rest` into `acc`, merging each map into the last one gathered when
/// the two have the same ID and appending it otherwise. Started from an empty
/// `acc`, this merges every run of consecutive maps with equal IDs into one
/// map (the runs are reduced from left to right).
pub open spec fn group_maps(acc: Seq<FullMapView>, rest: Seq<FullMapView>) -> Seq<FullMapView>
    decreases rest.len(),
{
    if rest.len() == 0 {
        acc
    } else {
        let next = if acc.len() > 0 && acc.last().id == rest[0].id {
            acc.update(acc.len() - 1, merge_map(acc.last(), rest[0]))
        } else {
            acc.push(rest[0])
        };
        group_maps(next, rest.drop_first())
    }
}

/// The first `limit` maps of `maps` after merging runs of equal IDs.
pub open spec fn normalized(maps: Seq<FullMapView>, limit: nat) -> Seq<FullMapView> {
    let grouped = group_maps(Seq::empty(), maps);
    if limit < grouped.len() {
        grouped.take(limit as int)
    } else {
        grouped
    }
}

impl FullMap {
    /// Normalizes the results of a SQL query by merging together maps with
    /// equal IDs.
    ///
    /// Each run of consecutive rows for the same map is merged into one map
    /// (see [`FullMap::merge`]), and at most `limit` maps are returned.
    pub fn normalize_sql_results(maps: Vec<FullMap>, limit: usize) -> (r: Vec<FullMap>)
        ensures
            map_views(r@) == normalized(map_views(maps@), limit as nat),
    {
        let ghost input = map_views(maps@);
        let mut out: Vec<FullMap> = Vec::new();
        proof {
            assert(input.skip(0) =~= input);
            assert(map_views(out@) =~= Seq::<FullMapView>::empty());
        }
        for m in it: maps.into_iter()
            invariant
                map_views(it.seq()) == input,
                it.seq().len() == input.len(),
                group_maps(Seq::empty(), input) == group_maps(
                    map_views(out@),
                    input.skip(it.index() as int),
                ),
        {
            let ghost before = map_views(out@);
            proof {
                assert(input.skip(it.index() as int)[0] == m@);
                assert(input.skip(it.index() as int).drop_first() =~= input.skip(
                    it.index() + 1,
                ));
            }
            let n = out.len();
            if n > 0 && out[n - 1].id == m.id {
                let last = out.pop().unwrap();
                out.push(last.merge(m));
                proof {
                    assert(map_views(out@) =~= before.update(
                        before.len() - 1,
                        merge_map(before.last(), m@),
                    ));
                }
            } else {
                out.push(m);
                proof {
                    assert(map_views(out@) =~= before.push(m@));
                }
            }
        }
        proof {
            assert(input.skip(input.len() as int) =~= Seq::<FullMapView>::empty());
        }
        let ghost grouped = map_views(out@);
        out.truncate(limit);
        proof {
            if (limit as nat) < grouped.len() {
                assert(map_views(out@) =~= grouped.take(limit as int));
            } else {
                assert(map_views(out@) =~= grouped);
            }
        }
        out
    }
}

} // verus!


verus! {

/// Whether no two filters in `filters` share an ID.
pub open spec fn unique_filters(filters: Seq<CourseFilter>) -> bool {
    forall|i: int, j: int|
        0 <= i < j < filters.len() ==> (#[trigger] filters[i]).id != (#[trigger] filters[j]).id
}

/// Adding the new filters of one list to another keeps the first list as a
/// prefix, loses no filter ID of either list, and introduces no duplicate ID.
pub proof fn lemma_add_new_filters(acc: Seq<CourseFilter>, new: Seq<CourseFilter>)
    ensures
        acc.len() <= add_new_filters(acc, new).len(),
        add_new_filters(acc, new).subrange(0, acc.len() as int) == acc,
        forall|id: FilterID|
            #[trigger] has_filter(add_new_filters(acc, new), id) <==> (has_filter(acc, id)
                || has_filter(new, id)),
        unique_filters(acc) ==> unique_filters(add_new_filters(acc, new)),
    decreases new.len(),
{
    if new.len() > 0 {
        let f = new[0];
        let next = if has_filter(acc, f.id) {
            acc
        } else {
            acc.push(f)
        };
        lemma_add_new_filters(next, new.drop_first());
        let res = add_new_filters(acc, new);
        assert(res == add_new_filters(next, new.drop_first()));
        assert(res.subrange(0, acc.len() as int) =~= acc) by {
            assert forall|k: int| 0 <= k < acc.len() implies res.subrange(0, acc.len() as int)[k]
                == acc[k] by {
                assert(res.subrange(0, next.len() as int)[k] == next[k]);
            }
        }
        assert forall|id: FilterID| #[trigger]
            has_filter(res, id) <==> (has_filter(acc, id) || has_filter(new, id)) by {
            if has_filter(new, id) {
                let i = choose|i: int| 0 <= i < new.len() && (#[trigger] new[i]).id == id;
                if i == 0 {
                    if !has_filter(acc, id) {
                        assert(next[acc.len() as int].id == id);
                    }
                } else {
                    assert(new.drop_first()[i - 1].id == id);
                }
            }
            if has_filter(acc, id) {
                let i = choose|i: int| 0 <= i < acc.len() && (#[trigger] acc[i]).id == id;
                assert(next[i].id == id);
            }
            if has_filter(next, id) {
                let i = choose|i: int| 0 <= i < next.len() && (#[trigger] next[i]).id == id;
                if i < acc.len() {
                    assert(acc[i].id == id);
                } else {
                    assert(new[0].id == id);
                }
            }
            if has_filter(new.drop_first(), id) {
                let i = choose|i: int|
                    0 <= i < new.drop_first().len() && (#[trigger] new.drop_first()[i]).id == id;
                assert(new[i + 1].id == id);
            }
        }
        if unique_filters(acc) {
            assert(unique_filters(next)) by {
                if !has_filter(acc, f.id) {
                    assert forall|i: int, j: int|
                        0 <= i < j < next.len() implies (#[trigger] next[i]).id != (
                        #[trigger] next[j]).id by {
                        if j == acc.len() {
                            assert(acc[i].id == next[i].id);
                        } else {
                            assert(acc[i] == next[i] && acc[j] == next[j]);
                        }
                    }
                }
            }
        }
    }
}

/// Merging two records of the same course keeps the first record's course
/// and loses no mapper and no filter of either record; if the first record
/// lists each mapper and each filter once, so does the merged course.
pub proof fn law_merge_course_loses_nothing(c: CourseView, other: CourseView)
    ensures
        merge_course(c, other).id == c.id,
        forall|id: SteamID|
            #[trigger] has_player(merge_course(c, other).mappers, id) <==> (has_player(c.mappers, id)
                || has_player(other.mappers, id)),
        forall|id: FilterID|
            #[trigger] has_filter(merge_course(c, other).filters, id) <==> (has_filter(c.filters, id)
                || has_filter(other.filters, id)),
        unique_players(c.mappers) ==> unique_players(merge_course(c, other).mappers),
        unique_filters(c.filters) ==> unique_filters(merge_course(c, other).filters),
{
    lemma_add_new_players(c.mappers, other.mappers);
    lemma_add_new_filters(c.filters, other.filters);
}

/// Whether some course in `courses` has the ID `id`.
pub open spec fn has_course(courses: Seq<CourseView>, id: CourseID) -> bool {
    exists|i: int| 0 <= i < courses.len() && (#[trigger] courses[i]).id == id
}

/// Whether no two courses in `courses` share an ID.
pub open spec fn unique_courses(courses: Seq<CourseView>) -> bool {
    forall|i: int, j: int|
        0 <= i < j < courses.len() ==> (#[trigger] courses[i]).id != (#[trigger] courses[j]).id
}

/// Merging courses loses no course ID of either list and introduces no
/// duplicate ID; the courses already gathered keep their positions and IDs.
pub proof fn lemma_merge_courses(acc: Seq<CourseView>, new: Seq<CourseView>)
    ensures
        acc.len() <= merge_courses(acc, new).len(),
        forall|k: int| 0 <= k < acc.len() ==> (#[trigger] merge_courses(acc, new)[k]).id == acc[k].id,
        forall|id: CourseID|
            #[trigger] has_course(merge_courses(acc, new), id) <==> (has_course(acc, id)
                || has_course(new, id)),
        unique_courses(acc) ==> unique_courses(merge_courses(acc, new)),
    decreases new.len(),
{
    if new.len() > 0 {
        let c = new[0];
        lemma_find_course(acc, c.id, 0);
        let next = match find_course(acc, c.id, 0) {
            Some(i) => acc.update(i, merge_course(acc[i], c)),
            None => acc.push(c),
        };
        lemma_merge_courses(next, new.drop_first());
        let res = merge_courses(acc, new);
        assert(res == merge_courses(next, new.drop_first()));
        assert forall|k: int| 0 <= k < acc.len() implies (#[trigger] res[k]).id == acc[k].id by {
            assert(res[k].id == next[k].id);
        }
        assert forall|id: CourseID| #[trigger]
            has_course(res, id) <==> (has_course(acc, id) || has_course(new, id)) by {
            if has_course(new, id) {
                let i = choose|i: int| 0 <= i < new.len() && (#[trigger] new[i]).id == id;
                if i == 0 {
                    match find_course(acc, c.id, 0) {
                        Some(j) => {
                            assert(next[j].id == id);
                        },
                        None => {
                            assert(next[acc.len() as int].id == id);
                        },
                    }
                } else {
                    assert(new.drop_first()[i - 1].id == id);
                }
            }
            if has_course(acc, id) {
                let i = choose|i: int| 0 <= i < acc.len() && (#[trigger] acc[i]).id == id;
                assert(next[i].id == id);
            }
            if has_course(next, id) {
                let i = choose|i: int| 0 <= i < next.len() && (#[trigger] next[i]).id == id;
                if i < acc.len() {
                    assert(acc[i].id == id);
                } else {
                    assert(new[0].id == id);
                }
            }
            if has_course(new.drop_first(), id) {
                let i = choose|i: int|
                    0 <= i < new.drop_first().len() && (#[trigger] new.drop_first()[i]).id == id;
                assert(new[i + 1].id == id);
            }
        }
        if unique_courses(acc) {
            assert(unique_courses(next)) by {
                assert forall|i: int, j: int|
                    0 <= i < j < next.len() implies (#[trigger] next[i]).id != (
                    #[trigger] next[j]).id by {
                    if j == acc.len() {
                        assert(acc[i].id == next[i].id);
                    } else {
                        assert(acc[i].id == next[i].id && acc[j].id == next[j].id);
                    }
                }
            }
        }
    }
}

/// Merging two records of the same map keeps the first record's ID and
/// metadata, loses no mapper and no course of either record, and introduces no
/// duplicate: if the first record lists each mapper and each course once, so
/// does the merged map.
pub proof fn law_merge_loses_nothing(map: FullMapView, other: FullMapView)
    requires
        map.id == other.id,
    ensures
        merge_map(map, other).id == map.id,
        merge_map(map, other).name == map.name,
        merge_map(map, other).checksum == map.checksum,
        merge_map(map, other).workshop_id == map.workshop_id,
        forall|id: SteamID|
            #[trigger] has_player(merge_map(map, other).mappers, id) <==> (has_player(
                map.mappers,
                id,
            ) || has_player(other.mappers, id)),
        forall|id: CourseID|
            #[trigger] has_course(merge_map(map, other).courses, id) <==> (has_course(
                map.courses,
                id,
            ) || has_course(other.courses, id)),
        unique_players(map.mappers) ==> unique_players(merge_map(map, other).mappers),
        unique_courses(map.courses) ==> unique_courses(merge_map(map, other).courses),
{
    reveal(merge_map);
    lemma_add_new_players(map.mappers, other.mappers);
    lemma_merge_courses(map.courses, other.courses);
}

/// Whether no two neighbouring maps in `maps` share an ID.
pub open spec fn neighbours_differ(maps: Seq<FullMapView>) -> bool {
    forall|i: int, j: int|
        0 <= i && j == i + 1 && j < maps.len() ==> (#[trigger] maps[i]).id != (
        #[trigger] maps[j]).id
}

/// Whether some map in `maps` has the ID `id`.
pub open spec fn has_map(maps: Seq<FullMapView>, id: MapID) -> bool {
    exists|i: int| 0 <= i < maps.len() && (#[trigger] maps[i]).id == id
}

/// Grouping keeps neighbouring maps apart by ID and never yields more maps
/// than it was given.
pub proof fn lemma_group_maps_shape(acc: Seq<FullMapView>, rest: Seq<FullMapView>)
    requires
        neighbours_differ(acc),
    ensures
        neighbours_differ(group_maps(acc, rest)),
        group_maps(acc, rest).len() <= acc.len() + rest.len(),
    decreases rest.len(),
{
    if rest.len() > 0 {
        let m = rest[0];
        let same = acc.len() > 0 && acc.last().id == m.id;
        let next = if same {
            acc.update(acc.len() - 1, merge_map(acc.last(), m))
        } else {
            acc.push(m)
        };
        lemma_merge_map_keeps_id(acc.last(), m);
        assert forall|i: int, j: int|
            0 <= i && j == i + 1 && j < next.len() implies (#[trigger] next[i]).id != (
            #[trigger] next[j]).id by {
            if same {
                assert(next[i].id == acc[i].id && next[j].id == acc[j].id);
            } else if j == acc.len() {
                assert(next[i] == acc.last());
            } else {
                assert(next[i] == acc[i] && next[j] == acc[j]);
            }
        }
        lemma_group_maps_shape(next, rest.drop_first());
    }
}

/// The maps that grouping yields carry exactly the IDs of the maps it was
/// given.
pub proof fn lemma_group_maps_ids(acc: Seq<FullMapView>, rest: Seq<FullMapView>, id: MapID)
    ensures
        has_map(group_maps(acc, rest), id) <==> (has_map(acc, id) || has_map(rest, id)),
    decreases rest.len(),
{
    if rest.len() > 0 {
        let m = rest[0];
        let same = acc.len() > 0 && acc.last().id == m.id;
        let next = if same {
            acc.update(acc.len() - 1, merge_map(acc.last(), m))
        } else {
            acc.push(m)
        };
        lemma_merge_map_keeps_id(acc.last(), m);
        lemma_group_maps_ids(next, rest.drop_first(), id);
        assert(group_maps(acc, rest) == group_maps(next, rest.drop_first()));
        if has_map(rest, id) {
            let i = choose|i: int| 0 <= i < rest.len() && (#[trigger] rest[i]).id == id;
            if i == 0 {
                if same {
                    assert(next[acc.len() - 1].id == id);
                } else {
                    assert(next[acc.len() as int].id == id);
                }
            } else {
                assert(rest.drop_first()[i - 1].id == id);
            }
        }
        if has_map(acc, id) {
            let i = choose|i: int| 0 <= i < acc.len() && (#[trigger] acc[i]).id == id;
            assert(next[i].id == id);
        }
        if has_map(next, id) {
            let i = choose|i: int| 0 <= i < next.len() && (#[trigger] next[i]).id == id;
            if i < acc.len() {
                assert(acc[i].id == id);
            } else {
                assert(rest[0].id == id);
            }
        }
        if has_map(rest.drop_first(), id) {
            let i = choose|i: int|
                0 <= i < rest.drop_first().len() && (#[trigger] rest.drop_first()[i]).id == id;
            assert(rest[i + 1].id == id);
        }
    }
}

/// After normalization no two neighbouring maps share an ID, at most `limit`
/// maps are returned, every map returned comes from the input, and when the
/// limit does not cut the result short every input map is represented.
pub proof fn law_normalized_maps(maps: Seq<FullMapView>, limit: nat)
    ensures
        neighbours_differ(normalized(maps, limit)),
        normalized(maps, limit).len() <= limit,
        normalized(maps, limit).len() <= maps.len(),
        forall|id: MapID| #[trigger] has_map(normalized(maps, limit), id) ==> has_map(maps, id),
        normalized(maps, limit).len() < limit ==> forall|id: MapID|
            #[trigger] has_map(maps, id) ==> has_map(normalized(maps, limit), id),
{
    lemma_group_maps_shape(Seq::empty(), maps);
    let grouped = group_maps(Seq::empty(), maps);
    let res = normalized(maps, limit);
    assert forall|id: MapID| #[trigger] has_map(res, id) implies has_map(maps, id) by {
        let i = choose|i: int| 0 <= i < res.len() && (#[trigger] res[i]).id == id;
        assert(grouped[i].id == id);
        lemma_group_maps_ids(Seq::empty(), maps, id);
    }
    assert forall|id: MapID| res.len() < limit && #[trigger] has_map(maps, id) implies has_map(
        res,
        id,
    ) by {
        lemma_group_maps_ids(Seq::empty(), maps, id);
    }
    if limit < grouped.len() {
        assert forall|i: int, j: int|
            0 <= i && j == i + 1 && j < res.len() implies (#[trigger] res[i]).id != (
            #[trigger] res[j]).id by {
            assert(res[i] == grouped[i] && res[j] == grouped[j]);
        }
    }
}

} // verus!
