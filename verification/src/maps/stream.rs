//! Maps as the API lists them, and how they are put together from the rows
//! of the listing query.
//!
//! The query returns one row per combination of map, course, course mapper
//! and filter, ordered so that the rows of a map follow each other. Each run
//! of rows for the same map becomes one map: the first row gives the map and
//! its first course; every further row adds its course if the map does not
//! have it yet, and otherwise adds the row's mapper to the course and sets
//! the filter of the row's mode.

use crate::checksum::Checksum;
use crate::maps::map::{
    filters_view_for_game, first_filters, set_filter, Filter, FilterId, Filters, FiltersView,
    FilterView, Mapper,
};
use crate::maps::{
    CourseDescription, CourseId, CourseName, FilterNotes, MapDescription, MapId, MapName, MapState,
    Tier,
};
use crate::mode::{Game, Mode};
use crate::users::{UserId, Username};
use std::collections::BTreeMap;
use vstd::prelude::*;

verus! {

/// A KZ map with its courses, as the API lists it.
///
/// (Listed as `Map` by the API; the name is taken by the specification
/// language here.)
#[derive(Debug)]
pub struct KzMap {
    pub id: MapId,
    pub workshop_id: u32,
    pub name: MapName,
    pub description: MapDescription,
    pub game: Game,
    pub state: MapState,
    /// A checksum of the map's `.vpk` file.
    pub checksum: Checksum,
    /// The map's courses, by course ID.
    pub courses: BTreeMap<u16, Course>,
    pub created_by: Mapper,
    /// When the map was created, in seconds since the Unix epoch.
    pub created_at: i64,
}

/// A course of a map.
#[derive(Debug)]
pub struct Course {
    /// The course's ID chosen by the API; unique across all courses.
    pub id: CourseId,
    /// The course's ID chosen by the mapper; unique within its map.
    pub local_id: u16,
    pub name: CourseName,
    pub description: CourseDescription,
    /// The course's mappers, by user ID.
    pub mappers: BTreeMap<u64, Mapper>,
    pub filters: Filters,
}

/// One row of the map listing query: a map, one of its courses, one mapper
/// of that course and one filter of that course.
#[derive(Debug)]
pub struct MapRow {
    pub id: MapId,
    pub workshop_id: u32,
    pub name: MapName,
    pub description: MapDescription,
    pub game: Game,
    pub state: MapState,
    pub checksum: Checksum,
    pub created_at: i64,
    pub mapper_id: UserId,
    pub mapper_name: Username,
    pub course_id: CourseId,
    pub course_local_id: u16,
    pub course_name: CourseName,
    pub course_description: CourseDescription,
    pub course_mapper_id: UserId,
    pub course_mapper_name: Username,
    pub filter_id: FilterId,
    pub filter_mode: Mode,
    pub filter_nub_tier: Tier,
    pub filter_pro_tier: Tier,
    pub filter_ranked: bool,
    pub filter_notes: FilterNotes,
}

/// A mapper: their ID and name.
pub type MapperView = (UserId, Seq<char>);

impl View for Mapper {
    type V = MapperView;

    open spec fn view(&self) -> MapperView {
        (self.id, self.name.0@)
    }
}

/// The content of a [`Course`].
pub struct CourseView {
    pub id: CourseId,
    pub local_id: u16,
    pub name: Seq<char>,
    pub description: Seq<char>,
    pub mappers: Map<u64, MapperView>,
    pub filters: FiltersView,
}

impl View for Course {
    type V = CourseView;

    open spec fn view(&self) -> CourseView {
        CourseView {
            id: self.id,
            local_id: self.local_id,
            name: self.name.text(),
            description: self.description.text(),
            mappers: self.mappers@.map_values(|m: Mapper| m@),
            filters: self.filters@,
        }
    }
}

/// The content of a [`KzMap`].
pub struct KzMapView {
    pub id: MapId,
    pub workshop_id: u32,
    pub name: Seq<char>,
    pub description: Seq<char>,
    pub game: Game,
    pub state: MapState,
    pub checksum: Checksum,
    pub courses: Map<u16, CourseView>,
    pub created_by: MapperView,
    pub created_at: i64,
}

impl View for KzMap {
    type V = KzMapView;

    open spec fn view(&self) -> KzMapView {
        KzMapView {
            id: self.id,
            workshop_id: self.workshop_id,
            name: self.name.text(),
            description: self.description.text(),
            game: self.game,
            state: self.state,
            checksum: self.checksum,
            courses: self.courses@.map_values(|c: Course| c@),
            created_by: self.created_by@,
            created_at: self.created_at,
        }
    }
}

/// The filter that a row describes.
pub open spec fn row_filter(row: MapRow) -> FilterView {
    FilterView {
        id: row.filter_id,
        nub_tier: row.filter_nub_tier,
        pro_tier: row.filter_pro_tier,
        ranked: row.filter_ranked,
        notes: row.filter_notes.text(),
    }
}

/// The course mapper that a row names.
pub open spec fn row_mapper(row: MapRow) -> MapperView {
    (row.course_mapper_id, row.course_mapper_name.0@)
}

/// The course as the first row for it describes it: its one mapper so far,
/// and every filter of its game set to the row's filter.
pub open spec fn row_course(row: MapRow) -> CourseView {
    CourseView {
        id: row.course_id,
        local_id: row.course_local_id,
        name: row.course_name.text(),
        description: row.course_description.text(),
        mappers: map![row.course_mapper_id.0 => row_mapper(row)],
        filters: first_filters(row.filter_mode, row_filter(row)),
    }
}

/// The map as the first row for it describes it, with the row's course.
pub open spec fn row_map(row: MapRow) -> KzMapView {
    KzMapView {
        id: row.id,
        workshop_id: row.workshop_id,
        name: row.name.text(),
        description: row.description.text(),
        game: row.game,
        state: row.state,
        checksum: row.checksum,
        courses: map![row.course_id.value() => row_course(row)],
        created_by: (row.mapper_id, row.mapper_name.0@),
        created_at: row.created_at,
    }
}

/// `m` with a further row of the same map taken in: a new course is added as
/// the row describes it; for a known course, the row's mapper is added (or
/// replaces the mapper with the same ID) and the filter of the row's mode is
/// set to the row's filter.
pub open spec fn absorb_row(m: KzMapView, row: MapRow) -> KzMapView {
    let key = row.course_id.value();
    if m.courses.contains_key(key) {
        let c = m.courses[key];
        KzMapView {
            courses: m.courses.insert(
                key,
                CourseView {
                    mappers: c.mappers.insert(row.course_mapper_id.0, row_mapper(row)),
                    filters: set_filter(c.filters, row.filter_mode, row_filter(row)),
                    ..c
                },
            ),
            ..m
        }
    } else {
        KzMapView { courses: m.courses.insert(key, row_course(row)), ..m }
    }
}

/// Takes the rows in order into the maps gathered so far: a row for the same
/// map as the last one gathered is absorbed into it, any other row starts a
/// new map.
pub open spec fn group_rows(acc: Seq<KzMapView>, rows: Seq<MapRow>) -> Seq<KzMapView>
    decreases rows.len(),
{
    if rows.len() == 0 {
        acc
    } else {
        let next = if acc.len() > 0 && acc.last().id == rows[0].id {
            acc.update(acc.len() - 1, absorb_row(acc.last(), rows[0]))
        } else {
            acc.push(row_map(rows[0]))
        };
        group_rows(next, rows.drop_first())
    }
}

/// Whether the rows are as the listing query returns them: each row's filter
/// is for a mode of the row's game, and neighbouring rows of the same map
/// agree on the game.
pub open spec fn rows_fit(rows: Seq<MapRow>) -> bool {
    &&& forall|i: int| 0 <= i < rows.len() ==> (#[trigger] rows[i]).filter_mode.spec_game() == rows[i].game
    &&& forall|i: int, j: int|
        0 <= i && j == i + 1 && j < rows.len() && (#[trigger] rows[i]).id == (#[trigger] rows[j]).id
            ==> rows[i].game == rows[j].game
}

/// Whether every course of the map has the filters of the map's game.
pub open spec fn courses_fit(m: KzMapView) -> bool {
    forall|k: u16| #[trigger] m.courses.contains_key(k) ==> filters_view_for_game(m.courses[k].filters, m.game)
}

/// The views of a sequence of maps.
pub open spec fn kz_map_views(maps: Seq<KzMap>) -> Seq<KzMapView> {
    maps.map_values(|m: KzMap| m@)
}

impl Course {
    /// The course as its first row describes it.
    fn first(
        id: CourseId,
        local_id: u16,
        name: CourseName,
        description: CourseDescription,
        mapper: Mapper,
        mode: Mode,
        filter: Filter,
    ) -> (r: Course)
        ensures
            r@ == (CourseView {
                id,
                local_id,
                name: name.text(),
                description: description.text(),
                mappers: map![mapper.id.0 => mapper@],
                filters: first_filters(mode, filter@),
            }),
    {
        let ghost mapper_view = mapper@;
        let key = mapper.id.0;
        let mut mappers: BTreeMap<u64, Mapper> = BTreeMap::new();
        mappers.insert(key, mapper);
        let filters = Filters::from_first_row(mode, filter);
        let course = Course { id, local_id, name, description, mappers, filters };
        proof {
            assert(course.mappers@.map_values(|m: Mapper| m@) =~= map![key => mapper_view]);
        }
        course
    }
}

impl KzMap {
    /// The map as the first row for it describes it.
    fn from_row(row: MapRow) -> (r: KzMap)
        requires
            row.filter_mode.spec_game() == row.game,
        ensures
            r@ == row_map(row),
            shows_row(r@, row),
            courses_fit(r@),
    {
        proof {
            law_rows_shown(row_map(row), row);
        }
        let ghost given = row;
        let MapRow {
            id,
            workshop_id,
            name,
            description,
            game,
            state,
            checksum,
            created_at,
            mapper_id,
            mapper_name,
            course_id,
            course_local_id,
            course_name,
            course_description,
            course_mapper_id,
            course_mapper_name,
            filter_id,
            filter_mode,
            filter_nub_tier,
            filter_pro_tier,
            filter_ranked,
            filter_notes,
        } = row;
        let mapper = Mapper { id: course_mapper_id, name: course_mapper_name };
        let filter = Filter {
            id: filter_id,
            nub_tier: filter_nub_tier,
            pro_tier: filter_pro_tier,
            ranked: filter_ranked,
            notes: filter_notes,
        };
        let course = Course::first(
            course_id,
            course_local_id,
            course_name,
            course_description,
            mapper,
            filter_mode,
            filter,
        );
        let ghost course_view = course@;
        let key = course_id.get();
        let mut courses: BTreeMap<u16, Course> = BTreeMap::new();
        courses.insert(key, course);
        let map = KzMap {
            id,
            workshop_id,
            name,
            description,
            game,
            state,
            checksum,
            courses,
            created_by: Mapper { id: mapper_id, name: mapper_name },
            created_at,
        };
        proof {
            assert(course_view == row_course(given));
            assert(map.courses@.map_values(|c: Course| c@) =~= map![key => course_view]);
        }
        map
    }

    /// Takes in a further row of this map (see [`absorb_row`]).
    fn absorb(&mut self, row: MapRow)
        requires
            old(self)@.game == row.game,
            row.filter_mode.spec_game() == row.game,
            courses_fit(old(self)@),
        ensures
            final(self)@ == absorb_row(old(self)@, row),
            courses_fit(final(self)@),
            old(self)@.id == row.id ==> shows_row(final(self)@, row),
    {
        proof {
            law_rows_shown(old(self)@, row);
        }
        let ghost given = row;
        let ghost before = self@;
        let MapRow {
            course_id,
            course_local_id,
            course_name,
            course_description,
            course_mapper_id,
            course_mapper_name,
            filter_id,
            filter_mode,
            filter_nub_tier,
            filter_pro_tier,
            filter_ranked,
            filter_notes,
            ..
        } = row;
        let key = course_id.get();
        let mapper = Mapper { id: course_mapper_id, name: course_mapper_name };
        let filter = Filter {
            id: filter_id,
            nub_tier: filter_nub_tier,
            pro_tier: filter_pro_tier,
            ranked: filter_ranked,
            notes: filter_notes,
        };
        let ghost old_courses = self.courses@;
        match self.courses.remove(&key) {
            Some(mut course) => {
                proof {
                    assert(old_courses.contains_key(key) && old_courses[key] == course);
                    assert(before.courses.contains_key(key));
                    assert(before.courses[key] == course@);
                    assert(filters_view_for_game(course@.filters, before.game));
                }
                let ghost old_mappers = course.mappers@;
                course.mappers.insert(course_mapper_id.0, mapper);
                course.filters.set(filter_mode, filter);
                proof {
                    assert(course.mappers@.map_values(|m: Mapper| m@) =~= old_mappers.map_values(
                        |m: Mapper| m@,
                    ).insert(course_mapper_id.0, row_mapper(given)));
                }
                let ghost new_course = course@;
                self.courses.insert(key, course);
                proof {
                    assert(self.courses@ == old_courses.remove(key).insert(key, self.courses@[key]));
                    assert(self.courses@.map_values(|c: Course| c@) =~= before.courses.insert(
                        key,
                        new_course,
                    ));
                }
            },
            None => {
                let course = Course::first(
                    course_id,
                    course_local_id,
                    course_name,
                    course_description,
                    mapper,
                    filter_mode,
                    filter,
                );
                let ghost new_course = course@;
                self.courses.insert(key, course);
                proof {
                    assert(!before.courses.contains_key(key));
                    assert(new_course == row_course(given));
                    assert(self.courses@.map_values(|c: Course| c@) =~= before.courses.insert(
                        key,
                        new_course,
                    ));
                }
            },
        }
    }
}

/// The maps gathered so far: the finished ones, then the one being put
/// together, if any.
pub open spec fn gathered(done: Seq<KzMapView>, curr: Option<KzMap>) -> Seq<KzMapView> {
    match curr {
        Some(m) => done.push(m@),
        None => done,
    }
}

/// Puts the maps of the listing query together from its rows, in order:
/// each run of rows for the same map becomes one
/// map, as [`group_rows`] describes.
pub fn maps_from_rows(rows: Vec<MapRow>) -> (r: Vec<KzMap>)
    requires
        rows_fit(rows@),
    ensures
        kz_map_views(r@) == group_rows(Seq::empty(), rows@),
        rows@.len() > 0 ==> r@.len() > 0 && shows_row(r@.last()@, rows@.last()),
{
    proof {
        if rows@.len() > 0 {
            law_last_row_shown(rows@);
        }
    }
    let ghost input = rows@;
    let mut done: Vec<KzMap> = Vec::new();
    let mut curr: Option<KzMap> = None;
    proof {
        assert(input.skip(0) =~= input);
        assert(kz_map_views(done@) =~= Seq::<KzMapView>::empty());
    }
    for row in it: rows.into_iter()
        invariant
            it.seq() == input,
            rows_fit(input),
            curr is None ==> it.index() == 0 && done@.len() == 0,
            curr matches Some(m) ==> it.index() > 0 && m@.game == input[it.index() - 1].game
                && m@.id == input[it.index() - 1].id && courses_fit(m@),
            group_rows(Seq::empty(), input) == group_rows(
                gathered(kz_map_views(done@), curr),
                input.skip(it.index() as int),
            ),
    {
        let ghost j = it.index() as int;
        proof {
            assert(input[j] == row);
            assert(input.skip(j)[0] == row);
            assert(input.skip(j).drop_first() =~= input.skip(j + 1));
        }
        let ghost acc = gathered(kz_map_views(done@), curr);
        match curr {
            None => {
                curr = Some(KzMap::from_row(row));
                proof {
                    assert(acc.len() == 0);
                    assert(kz_map_views(done@).push(row_map(row)) =~= acc.push(row_map(row)));
                }
            },
            Some(mut m) => {
                if m.id == row.id {
                    proof {
                        assert(j >= 1);
                        assert(input[j - 1].id == input[j].id);
                        assert(input[j - 1].game == input[j].game);
                    }
                    let ghost before = m@;
                    m.absorb(row);
                    proof {
                        assert(acc.last() == before);
                        assert(kz_map_views(done@).push(m@) =~= acc.update(
                            acc.len() - 1,
                            absorb_row(before, input[j]),
                        ));
                    }
                    curr = Some(m);
                } else {
                    let ghost last = m@;
                    done.push(m);
                    let next = KzMap::from_row(row);
                    proof {
                        assert(acc.last().id != input[j].id);
                        assert(kz_map_views(done@) =~= acc);
                        assert(kz_map_views(done@).push(next@) =~= acc.push(row_map(input[j])));
                    }
                    curr = Some(next);
                }
            },
        }
    }
    proof {
        assert(input.skip(input.len() as int) =~= Seq::<MapRow>::empty());
    }
    match curr {
        Some(m) => {
            let ghost before = kz_map_views(done@);
            done.push(m);
            proof {
                assert(kz_map_views(done@) =~= before.push(m@));
            }
        },
        None => {},
    }
    done
}

/// Whether no two neighbouring maps share an ID.
pub open spec fn neighbours_differ(maps: Seq<KzMapView>) -> bool {
    forall|i: int, j: int|
        0 <= i && j == i + 1 && j < maps.len() ==> (#[trigger] maps[i]).id != (
        #[trigger] maps[j]).id
}

/// Whether some map in `maps` with ID `id` has the course with ID `course`.
pub open spec fn lists_course(maps: Seq<KzMapView>, id: MapId, course: u16) -> bool {
    exists|i: int|
        0 <= i < maps.len() && (#[trigger] maps[i]).id == id && maps[i].courses.contains_key(course)
}

/// Whether some row in `rows` is for map `id` and the course with ID
/// `course`.
pub open spec fn row_lists_course(rows: Seq<MapRow>, id: MapId, course: u16) -> bool {
    exists|i: int|
        0 <= i < rows.len() && (#[trigger] rows[i]).id == id && rows[i].course_id.value() == course
}

proof fn lemma_group_rows_shape(acc: Seq<KzMapView>, rows: Seq<MapRow>)
    requires
        neighbours_differ(acc),
    ensures
        neighbours_differ(group_rows(acc, rows)),
        group_rows(acc, rows).len() <= acc.len() + rows.len(),
    decreases rows.len(),
{
    if rows.len() > 0 {
        let same = acc.len() > 0 && acc.last().id == rows[0].id;
        let next = if same {
            acc.update(acc.len() - 1, absorb_row(acc.last(), rows[0]))
        } else {
            acc.push(row_map(rows[0]))
        };
        assert forall|i: int, j: int|
            0 <= i && j == i + 1 && j < next.len() implies (#[trigger] next[i]).id != (
            #[trigger] next[j]).id by {
            if same {
                assert(next[i].id == acc[i].id && next[j].id == acc[j].id);
            } else if j == acc.len() {
                assert(next[i] == acc.last());
            } else {
                assert(next[i] == acc[i] && next[j] == acc[j]);
            }
        }
        lemma_group_rows_shape(next, rows.drop_first());
    }
}

proof fn lemma_group_rows_courses(acc: Seq<KzMapView>, rows: Seq<MapRow>, id: MapId, course: u16)
    ensures
        lists_course(group_rows(acc, rows), id, course) <==> (lists_course(acc, id, course)
            || row_lists_course(rows, id, course)),
    decreases rows.len(),
{
    if rows.len() > 0 {
        let row = rows[0];
        let same = acc.len() > 0 && acc.last().id == row.id;
        let next = if same {
            acc.update(acc.len() - 1, absorb_row(acc.last(), row))
        } else {
            acc.push(row_map(row))
        };
        let rest = rows.drop_first();
        lemma_group_rows_courses(next, rest, id, course);
        if lists_course(acc, id, course) {
            let i = choose|i: int|
                0 <= i < acc.len() && (#[trigger] acc[i]).id == id && acc[i].courses.contains_key(
                    course,
                );
            assert(next[i].id == id && next[i].courses.contains_key(course));
        }
        if row_lists_course(rows, id, course) {
            let i = choose|i: int|
                0 <= i < rows.len() && (#[trigger] rows[i]).id == id && rows[i].course_id.value()
                    == course;
            if i == 0 {
                if same {
                    assert(next[acc.len() - 1].id == id);
                    assert(next[acc.len() - 1].courses.contains_key(course));
                } else {
                    assert(next[acc.len() as int].id == id);
                    assert(next[acc.len() as int].courses.contains_key(course));
                }
            } else {
                assert(rest[i - 1].id == id);
            }
        }
        if lists_course(next, id, course) {
            let i = choose|i: int|
                0 <= i < next.len() && (#[trigger] next[i]).id == id && next[i].courses.contains_key(
                    course,
                );
            if i < acc.len() && !(same && i == acc.len() - 1) {
                assert(acc[i].id == id && acc[i].courses.contains_key(course));
            } else if same {
                if row.course_id.value() != course {
                    assert(acc[i].courses.contains_key(course));
                    assert(acc[i].id == id);
                }
            }
        }
        if row_lists_course(rest, id, course) {
            let i = choose|i: int|
                0 <= i < rest.len() && (#[trigger] rest[i]).id == id && rest[i].course_id.value()
                    == course;
            assert(rows[i + 1].id == id);
        }
    }
}

/// Putting maps together from rows loses no course and invents none: no two
/// neighbouring maps share an ID, there are at most as many maps as rows,
/// and a map with a given ID lists a given course exactly when some row is
/// for that map and that course.
pub proof fn law_maps_from_rows(rows: Seq<MapRow>)
    ensures
        neighbours_differ(group_rows(Seq::empty(), rows)),
        group_rows(Seq::empty(), rows).len() <= rows.len(),
        forall|id: MapId, course: u16|
            #[trigger] lists_course(group_rows(Seq::empty(), rows), id, course)
                <==> row_lists_course(rows, id, course),
{
    lemma_group_rows_shape(Seq::empty(), rows);
    assert forall|id: MapId, course: u16|
        #[trigger] lists_course(group_rows(Seq::empty(), rows), id, course) <==> row_lists_course(
            rows,
            id,
            course,
        ) by {
        lemma_group_rows_courses(Seq::empty(), rows, id, course);
    }
}

proof fn lemma_group_rows_fit(acc: Seq<KzMapView>, rows: Seq<MapRow>)
    requires
        rows_fit(rows),
        forall|i: int| 0 <= i < acc.len() ==> courses_fit(#[trigger] acc[i]),
        acc.len() > 0 && rows.len() > 0 && acc.last().id == rows[0].id ==> acc.last().game
            == rows[0].game,
    ensures
        forall|i: int|
            0 <= i < group_rows(acc, rows).len() ==> courses_fit(#[trigger] group_rows(acc, rows)[i]),
    decreases rows.len(),
{
    if rows.len() > 0 {
        let row = rows[0];
        let same = acc.len() > 0 && acc.last().id == row.id;
        let next = if same {
            acc.update(acc.len() - 1, absorb_row(acc.last(), row))
        } else {
            acc.push(row_map(row))
        };
        let rest = rows.drop_first();
        assert(row.filter_mode.spec_game() == row.game);
        let last = next.last();
        assert(courses_fit(last)) by {
            if same {
                let m = acc.last();
                assert(courses_fit(m));
                assert forall|k: u16| #[trigger] last.courses.contains_key(k) implies filters_view_for_game(
                    last.courses[k].filters,
                    last.game,
                ) by {
                    if k != row.course_id.value() {
                        assert(m.courses.contains_key(k));
                    } else if m.courses.contains_key(k) {
                        assert(filters_view_for_game(m.courses[k].filters, m.game));
                    }
                }
            }
        }
        assert forall|i: int| 0 <= i < next.len() implies courses_fit(#[trigger] next[i]) by {
            if i < next.len() - 1 {
                assert(next[i] == acc[i]);
            }
        }
        if rest.len() > 0 && last.id == rest[0].id {
            assert(rows[0].id == rows[1].id);
            assert(rows[0].game == rows[1].game);
        }
        assert forall|i: int| 0 <= i < rest.len() implies (#[trigger] rest[i]).filter_mode.spec_game()
            == rest[i].game by {
            assert(rest[i] == rows[i + 1]);
        }
        assert forall|i: int, j: int|
            0 <= i && j == i + 1 && j < rest.len() && (#[trigger] rest[i]).id == (
            #[trigger] rest[j]).id implies rest[i].game == rest[j].game by {
            assert(rest[i] == rows[i + 1] && rest[j] == rows[j + 1]);
        }
        lemma_group_rows_fit(next, rest);
        assert(group_rows(acc, rows) == group_rows(next, rest));
    } else {
        assert(group_rows(acc, rows) == acc);
    }
}

/// Every course of every map put together from well-formed rows has the
/// filters of its map's game.
pub proof fn law_courses_have_filters_of_their_game(rows: Seq<MapRow>)
    requires
        rows_fit(rows),
    ensures
        forall|i: int|
            0 <= i < group_rows(Seq::empty(), rows).len() ==> courses_fit(
                #[trigger] group_rows(Seq::empty(), rows)[i],
            ),
{
    lemma_group_rows_fit(Seq::empty(), rows);
}

/// The filter that `filters` holds for `mode`, if it holds one.
pub open spec fn filter_view_for_mode(filters: FiltersView, mode: Mode) -> Option<FilterView> {
    match (mode, filters) {
        (Mode::VanillaCS2, FiltersView::CS2 { vnl, .. }) => Some(vnl),
        (Mode::Classic, FiltersView::CS2 { ckz, .. }) => Some(ckz),
        (Mode::KZTimer, FiltersView::CSGO { kzt, .. }) => Some(kzt),
        (Mode::SimpleKZ, FiltersView::CSGO { skz, .. }) => Some(skz),
        (Mode::VanillaCSGO, FiltersView::CSGO { vnl, .. }) => Some(vnl),
        _ => None,
    }
}

/// Whether map `m` shows what row `row` says: the row's course is among the
/// map's courses, the row's mapper is among that course's mappers under
/// their ID and with their name, and the course's filter for the row's mode
/// carries the row's filter ID, NUB tier, PRO tier, ranked flag and notes.
pub open spec fn shows_row(m: KzMapView, row: MapRow) -> bool {
    let key = row.course_id.value();
    &&& m.id == row.id
    &&& m.courses.contains_key(key)
    &&& m.courses[key].mappers.contains_key(row.course_mapper_id.0)
    &&& m.courses[key].mappers[row.course_mapper_id.0] == (
        row.course_mapper_id,
        row.course_mapper_name.0@,
    )
    &&& filter_view_for_mode(m.courses[key].filters, row.filter_mode) matches Some(f)
    &&& f.id == row.filter_id
    &&& f.nub_tier == row.filter_nub_tier
    &&& f.pro_tier == row.filter_pro_tier
    &&& f.ranked == row.filter_ranked
    &&& f.notes == row.filter_notes.text()
}

/// A map started from a row shows that row, and so does a map after taking
/// in a further row of the same map and game; the map keeps its ID, name,
/// game and creator from its first row.
pub proof fn law_rows_shown(m: KzMapView, row: MapRow)
    requires
        row.filter_mode.spec_game() == row.game,
    ensures
        shows_row(row_map(row), row),
        row_map(row).courses[row.course_id.value()].id == row.course_id,
        row_map(row).name == row.name.text(),
        row_map(row).game == row.game,
        row_map(row).created_by == (row.mapper_id, row.mapper_name.0@),
        m.id == row.id && m.game == row.game && courses_fit(m) ==> shows_row(absorb_row(m, row), row)
            && absorb_row(m, row).name == m.name && absorb_row(m, row).game == m.game
            && absorb_row(m, row).created_by == m.created_by,
{
    let key = row.course_id.value();
    assert(row_map(row).courses.contains_key(key));
    if m.id == row.id && m.game == row.game && courses_fit(m) {
        let a = absorb_row(m, row);
        assert(a.courses.contains_key(key));
        if m.courses.contains_key(key) {
            let c = m.courses[key];
            assert(filters_view_for_game(c.filters, m.game));
            let fs = set_filter(c.filters, row.filter_mode, row_filter(row));
            assert(filter_view_for_mode(fs, row.filter_mode) == Some(row_filter(row)));
            assert(a.courses[key].filters == fs);
            assert(a.courses[key].mappers == c.mappers.insert(row.course_mapper_id.0, row_mapper(row)));
        } else {
            assert(a.courses[key] == row_course(row));
        }
    }
}

proof fn lemma_group_rows_last(acc: Seq<KzMapView>, rows: Seq<MapRow>)
    requires
        rows.len() > 0,
    ensures
        group_rows(acc, rows) == ({
            let before = group_rows(acc, rows.drop_last());
            let row = rows.last();
            if before.len() > 0 && before.last().id == row.id {
                before.update(before.len() - 1, absorb_row(before.last(), row))
            } else {
                before.push(row_map(row))
            }
        }),
    decreases rows.len(),
{
    let next = if acc.len() > 0 && acc.last().id == rows[0].id {
        acc.update(acc.len() - 1, absorb_row(acc.last(), rows[0]))
    } else {
        acc.push(row_map(rows[0]))
    };
    assert(group_rows(acc, rows) == group_rows(next, rows.drop_first()));
    if rows.len() == 1 {
        assert(rows.drop_last() =~= Seq::<MapRow>::empty());
        assert(rows.drop_first() =~= Seq::<MapRow>::empty());
        assert(group_rows(acc, rows.drop_last()) == acc);
        assert(group_rows(next, rows.drop_first()) == next);
    } else {
        lemma_group_rows_last(next, rows.drop_first());
        assert(rows.drop_first().drop_last() =~= rows.drop_last().drop_first());
        assert(rows.drop_last()[0] == rows[0]);
        assert(rows.drop_first().last() == rows.last());
        assert(group_rows(acc, rows.drop_last()) == group_rows(
            next,
            rows.drop_last().drop_first(),
        ));
    }
}

/// The last row of well-formed rows is shown by the last map put together:
/// that map has the row's map ID and course, the row's course mapper, and
/// for the row's mode the row's filter with its NUB and PRO tiers in the
/// same fields.
pub proof fn law_last_row_shown(rows: Seq<MapRow>)
    requires
        rows.len() > 0,
        rows_fit(rows),
    ensures
        group_rows(Seq::empty(), rows).len() > 0,
        shows_row(group_rows(Seq::empty(), rows).last(), rows.last()),
{
    let front = rows.drop_last();
    let row = rows.last();
    lemma_group_rows_last(Seq::empty(), rows);
    assert(row.filter_mode.spec_game() == row.game) by {
        assert(rows[rows.len() - 1] == row);
    }
    let before = group_rows(Seq::empty(), front);
    if before.len() > 0 && before.last().id == row.id {
        assert(rows_fit(front)) by {
            assert forall|i: int| 0 <= i < front.len() implies (#[trigger] front[i]).filter_mode.spec_game()
                == front[i].game by {
                assert(front[i] == rows[i]);
            }
            assert forall|i: int, j: int|
                0 <= i && j == i + 1 && j < front.len() && (#[trigger] front[i]).id == (
                #[trigger] front[j]).id implies front[i].game == front[j].game by {
                assert(front[i] == rows[i] && front[j] == rows[j]);
            }
        }
        lemma_group_rows_fit(Seq::empty(), front);
        assert(courses_fit(before.last()));
        lemma_last_map_game(front);
        law_rows_shown(before.last(), row);
        assert(group_rows(Seq::empty(), rows).last() == absorb_row(before.last(), row));
    } else {
        law_rows_shown(before.last(), row);
        assert(group_rows(Seq::empty(), rows).last() == row_map(row));
    }
}

/// The last map put together from non-empty well-formed rows has the ID and
/// the game of the last row.
proof fn lemma_last_map_game(rows: Seq<MapRow>)
    requires
        rows.len() > 0,
        rows_fit(rows),
    ensures
        group_rows(Seq::empty(), rows).len() > 0,
        group_rows(Seq::empty(), rows).last().id == rows.last().id,
        group_rows(Seq::empty(), rows).last().game == rows.last().game,
    decreases rows.len(),
{
    lemma_group_rows_last(Seq::empty(), rows);
    let front = rows.drop_last();
    if front.len() > 0 {
        assert(rows_fit(front)) by {
            assert forall|i: int| 0 <= i < front.len() implies (#[trigger] front[i]).filter_mode.spec_game()
                == front[i].game by {
                assert(front[i] == rows[i]);
            }
            assert forall|i: int, j: int|
                0 <= i && j == i + 1 && j < front.len() && (#[trigger] front[i]).id == (
                #[trigger] front[j]).id implies front[i].game == front[j].game by {
                assert(front[i] == rows[i] && front[j] == rows[j]);
            }
        }
        lemma_last_map_game(front);
        let before = group_rows(Seq::empty(), front);
        let k = front.len() - 1;
        assert(rows[k] == front.last());
        assert(rows[k + 1] == rows.last());
        if before.last().id == rows.last().id {
            assert(rows[k].id == rows[k + 1].id);
            assert(rows[k].game == rows[k + 1].game);
        }
    } else {
        assert(front =~= Seq::<MapRow>::empty());
        assert(group_rows(Seq::empty(), front) == Seq::<KzMapView>::empty());
    }
}

} // verus!
