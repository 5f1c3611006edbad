//! Request payloads for creating maps, and their validation.

use super::{CourseID, FilterID, MapID};
use crate::kz::{GlobalStatus, Mode, RankedStatus, SteamID};
use crate::maps::Tier;
use std::collections::BTreeMap;
use vstd::prelude::*;

verus! {

/// Request payload for creating new map course filters.
#[derive(Debug)]
pub struct NewFilter {
    /// The filter's mode.
    pub mode: Mode,
    /// Whether teleports are allowed.
    pub teleports: bool,
    /// The filter's tier.
    pub tier: Tier,
    /// The filter's ranked status.
    pub ranked_status: RankedStatus,
    /// Notes about the filter.
    pub notes: Option<String>,
}

/// Request payload for creating new map courses.
#[derive(Debug)]
pub struct NewCourse {
    /// The course's name.
    pub name: Option<String>,
    /// A description of the course.
    pub description: Option<String>,
    /// The SteamIDs of the course's creators.
    pub mappers: Vec<SteamID>,
    /// The course's four filters, ordered by mode and then teleports (as
    /// [`NewCourse::validate_filters`] leaves them).
    pub filters: Vec<NewFilter>,
}

/// Request payload for creating new maps.
#[derive(Debug)]
pub struct NewMap {
    /// A description of the map.
    pub description: Option<String>,
    /// The map's initial global status.
    pub global_status: GlobalStatus,
    /// The map's Steam Workshop ID.
    pub workshop_id: u32,
    /// The SteamIDs of the map's creators.
    pub mappers: Vec<SteamID>,
    /// The map's courses.
    pub courses: Vec<NewCourse>,
}

/// Response body for creating a new map.
#[derive(Debug)]
pub struct CreatedMap {
    /// The map's ID.
    pub map_id: MapID,
    /// The course IDs for the map's courses.
    pub course_ids: Vec<CourseID>,
    /// The course's filter IDs.
    pub filter_ids: BTreeMap<CourseID, [FilterID; 4]>,
}

/// Why the filters submitted for a course were refused.
#[derive(Debug, Clone, Copy, PartialEq, Eq, Structural)]
pub enum InvalidFilters {
    /// The filters are not exactly one per mode and teleport setting; the
    /// mode and setting are those of the filter found where another one was
    /// expected ("filter for ({mode}, {TP|Pro}) is missing").
    Missing { mode: Mode, teleports: bool },
    /// A ranked filter has a tier above [`Tier::Death`] ("tier `{tier}` is
    /// too high for a ranked filter").
    TierTooHigh { tier: Tier },
}

/// Why the courses submitted for a map were refused.
#[derive(Debug, Clone, PartialEq, Eq)]
pub enum InvalidCourses {
    /// The course at this position lists no mappers.
    NoMappers { position: usize },
    /// No course was submitted.
    NoCourses,
    /// Two courses have the same name ("cannot submit duplicate courses
    /// (`{name}`)").
    DuplicateName(String),
}

/// Whether a filter with this tier and ranked status is refused: ranked
/// filters may not be harder than [`Tier::Death`].
pub open spec fn too_hard_to_rank(tier: Tier, ranked_status: RankedStatus) -> bool {
    !tier.humanly_possible() && ranked_status is Ranked
}

/// A filter is refused for its tier exactly when it is ranked and its tier is
/// one no human can complete (unfeasible or impossible); every tier up to and
/// including death may be ranked.
pub proof fn law_too_hard_to_rank(tier: Tier, ranked_status: RankedStatus)
    ensures
        too_hard_to_rank(tier, ranked_status) == ((tier == Tier::Unfeasible || tier
            == Tier::Impossible) && ranked_status == RankedStatus::Ranked),
{
}

/// The position of a filter in the order the API keeps filters in: by mode,
/// then without teleports before with teleports.
pub open spec fn filter_slot(mode: Mode, teleports: bool) -> int {
    mode.rank() * 2 + if teleports {
        1int
    } else {
        0int
    }
}

/// The slot of a submitted filter.
pub open spec fn slot_of(f: NewFilter) -> int {
    filter_slot(f.mode, f.teleports)
}

/// The first position at or after `from` whose filter has a slot above `k`,
/// or the length of `sorted` if there is none.
pub open spec fn insertion_point(sorted: Seq<NewFilter>, k: int, from: int) -> int
    decreases sorted.len() - from,
{
    if from < 0 || from >= sorted.len() {
        sorted.len() as int
    } else if slot_of(sorted[from]) > k {
        from
    } else {
        insertion_point(sorted, k, from + 1)
    }
}

/// `filters` sorted by slot; filters with equal slots keep their order.
pub open spec fn sorted_by_slot(filters: Seq<NewFilter>) -> Seq<NewFilter>
    decreases filters.len(),
{
    if filters.len() == 0 {
        filters
    } else {
        let rest = sorted_by_slot(filters.drop_last());
        rest.insert(insertion_point(rest, slot_of(filters.last()), 0), filters.last())
    }
}

/// The first problem found when walking the sorted filters against the
/// expected slots 0, 1, 2, 3 in order, starting at position `p`: a filter in
/// the wrong slot, or a ranked filter that is too hard.
pub open spec fn filters_problem(sorted: Seq<NewFilter>, p: int) -> Option<InvalidFilters>
    decreases sorted.len() - p,
{
    if p < 0 || p >= sorted.len() || p >= 4 {
        None
    } else if slot_of(sorted[p]) != p {
        Some(InvalidFilters::Missing { mode: sorted[p].mode, teleports: sorted[p].teleports })
    } else if too_hard_to_rank(sorted[p].tier, sorted[p].ranked_status) {
        Some(InvalidFilters::TierTooHigh { tier: sorted[p].tier })
    } else {
        filters_problem(sorted, p + 1)
    }
}

fn slot(f: &NewFilter) -> (r: u8)
    ensures
        r as int == slot_of(*f),
{
    let m: u8 = match f.mode {
        Mode::Vanilla => 0,
        Mode::Classic => 2,
    };
    if f.teleports {
        m + 1
    } else {
        m
    }
}

fn is_too_hard_to_rank(tier: Tier, ranked_status: RankedStatus) -> (r: bool)
    ensures
        r == too_hard_to_rank(tier, ranked_status),
{
    !tier.is_humanly_possible() && ranked_status.is_ranked()
}

/// Position at which a filter of slot `k` goes into `sorted`: after every
/// filter whose slot is at most `k`.
fn find_insertion_point(sorted: &Vec<NewFilter>, k: u8) -> (r: usize)
    ensures
        r as int == insertion_point(sorted@, k as int, 0),
        r <= sorted.len(),
{
    let mut i: usize = 0;
    while i < sorted.len() && slot(&sorted[i]) <= k
        invariant
            i <= sorted.len(),
            insertion_point(sorted@, k as int, 0) == insertion_point(sorted@, k as int, i as int),
        decreases sorted.len() - i,
    {
        i = i + 1;
    }
    i
}

/// Sorts filters by slot, keeping the order of filters with equal slots.
fn sort_by_slot(filters: Vec<NewFilter>) -> (r: Vec<NewFilter>)
    ensures
        r@ == sorted_by_slot(filters@),
{
    let ghost input = filters@;
    let mut sorted: Vec<NewFilter> = Vec::new();
    proof {
        assert(input.take(0) =~= Seq::<NewFilter>::empty());
    }
    for f in it: filters.into_iter()
        invariant
            it.seq() == input,
            sorted@ == sorted_by_slot(input.take(it.index() as int)),
    {
        proof {
            assert(input.take(it.index() + 1).drop_last() =~= input.take(it.index() as int));
            assert(input.take(it.index() + 1).last() == f);
        }
        let k = slot(&f);
        let i = find_insertion_point(&sorted, k);
        sorted.insert(i, f);
    }
    proof {
        assert(input.take(input.len() as int) =~= input);
    }
    sorted
}

impl NewCourse {
    /// Validates the four filters submitted for a course and returns them
    /// sorted by mode and then teleports, with empty notes read as absent.
    ///
    /// After sorting, the filters must be exactly (Vanilla, Pro),
    /// (Vanilla, TP), (Classic, Pro), (Classic, TP); walking them in that
    /// order, the first filter out of place is reported as missing, and the
    /// first ranked filter above [`Tier::Death`] is refused. Filters with the
    /// same mode and teleport setting keep their submitted order.
    pub fn validate_filters(filters: Vec<NewFilter>) -> (r: Result<Vec<NewFilter>, InvalidFilters>)
        requires
            filters.len() == 4,
        ensures
            filters_problem(sorted_by_slot(filters@), 0) is None ==> (r matches Ok(sorted)
                && sorted@ == sorted_by_slot(filters@).map_values(|f: NewFilter| normalized_filter(f))),
            filters_problem(sorted_by_slot(filters@), 0) matches Some(e) ==> r == Err::<
                Vec<NewFilter>,
                InvalidFilters,
            >(e),
    {
        let ghost submitted = filters@;
        let sorted = sort_by_slot(filters);
        let mut p: usize = 0;
        while p < sorted.len() && p < 4
            invariant
                p <= sorted.len(),
                sorted@ == sorted_by_slot(submitted),
                submitted == filters@,
                filters_problem(sorted@, 0) == filters_problem(sorted@, p as int),
            decreases sorted.len() - p,
        {
            let f = &sorted[p];
            if slot(f) as usize != p {
                return Err(InvalidFilters::Missing { mode: f.mode, teleports: f.teleports });
            }
            if is_too_hard_to_rank(f.tier, f.ranked_status) {
                return Err(InvalidFilters::TierTooHigh { tier: f.tier });
            }
            p = p + 1;
        }
        let ghost ordered = sorted@;
        let mut out: Vec<NewFilter> = Vec::new();
        proof {
            assert(ordered.skip(0) =~= ordered);
        }
        for f in it: sorted.into_iter()
            invariant
                it.seq() == ordered,
                ordered == sorted_by_slot(submitted),
                out@ == ordered.map_values(|f: NewFilter| normalized_filter(f)).take(
                    it.index() as int,
                ),
        {
            proof {
                assert(ordered[it.index() as int] == f);
            }
            let NewFilter { mode, teleports, tier, ranked_status, notes } = f;
            out.push(NewFilter { mode, teleports, tier, ranked_status, notes: text_or_none(notes) });
            proof {
                assert(out@ =~= ordered.map_values(|f: NewFilter| normalized_filter(f)).take(
                    it.index() + 1,
                ));
            }
        }
        proof {
            assert(out@ =~= ordered.map_values(|f: NewFilter| normalized_filter(f)));
        }
        Ok(out)
    }
}

/// The position of the first course whose name is already used by an earlier
/// course, considering only courses from `j` on.
pub open spec fn first_duplicate_name(names: Seq<Option<String>>, j: int) -> Option<int>
    decreases names.len() - j,
{
    if j < 0 || j >= names.len() {
        None
    } else if names[j] is Some && exists|i: int|
        0 <= i < j && (#[trigger] names[i]) is Some && names[i]->0@ == names[j]->0@ {
        Some(j)
    } else {
        first_duplicate_name(names, j + 1)
    }
}

/// The names of `courses`.
pub open spec fn course_names(courses: Seq<NewCourse>) -> Seq<Option<String>> {
    courses.map_values(|c: NewCourse| c.name)
}

/// Whether a course among `courses[..j]` is named `name`.
fn name_taken_before(courses: &Vec<NewCourse>, j: usize, name: &String) -> (r: bool)
    requires
        j <= courses.len(),
    ensures
        r == exists|i: int|
            0 <= i < j && (#[trigger] course_names(courses@)[i]) is Some && course_names(
                courses@,
            )[i]->0@ == name@,
{
    let ghost names = course_names(courses@);
    let mut i: usize = 0;
    while i < j
        invariant
            i <= j <= courses.len(),
            names == course_names(courses@),
            forall|k: int|
                0 <= k < i ==> !((#[trigger] names[k]) is Some && names[k]->0@ == name@),
        decreases j - i,
    {
        proof {
            assert(names[i as int] == courses@[i as int].name);
        }
        match &courses[i].name {
            Some(n) => {
                if *n == *name {
                    return true;
                }
            },
            None => {},
        }
        i = i + 1;
    }
    false
}

/// A submitted text with the empty text read as absent.
pub open spec fn none_if_empty(text: Option<String>) -> Option<String> {
    match text {
        Some(t) => if t@.len() == 0 {
            None
        } else {
            Some(t)
        },
        None => None,
    }
}

/// Reads a submitted optional text, taking the empty text as absent.
pub fn text_or_none(text: Option<String>) -> (r: Option<String>)
    ensures
        r == none_if_empty(text),
{
    match text {
        Some(t) => if t.as_str().is_empty() {
            None
        } else {
            Some(t)
        },
        None => None,
    }
}

/// A submitted filter with empty notes read as absent.
pub open spec fn normalized_filter(f: NewFilter) -> NewFilter {
    NewFilter { notes: none_if_empty(f.notes), ..f }
}

/// A submitted course with an empty name or description read as absent.
pub open spec fn normalized_course(c: NewCourse) -> NewCourse {
    NewCourse { name: none_if_empty(c.name), description: none_if_empty(c.description), ..c }
}

/// The position of the first course from `j` on that lists no mappers.
pub open spec fn first_without_mappers(courses: Seq<NewCourse>, j: int) -> Option<int>
    decreases courses.len() - j,
{
    if j < 0 || j >= courses.len() {
        None
    } else if courses[j].mappers@.len() == 0 {
        Some(j)
    } else {
        first_without_mappers(courses, j + 1)
    }
}

/// The outcome of checking submitted courses, as far as it is an error:
/// a course without mappers (the first one), no courses at all, or a course
/// whose name repeats an earlier course's name (the first one; empty names
/// count as no name).
pub open spec fn courses_problem(courses: Seq<NewCourse>) -> Option<InvalidCourses> {
    let normalized = courses.map_values(|c: NewCourse| normalized_course(c));
    if let Some(p) = first_without_mappers(courses, 0) {
        Some(InvalidCourses::NoMappers { position: p as usize })
    } else if courses.len() == 0 {
        Some(InvalidCourses::NoCourses)
    } else if let Some(j) = first_duplicate_name(course_names(normalized), 0) {
        Some(InvalidCourses::DuplicateName(course_names(normalized)[j]->0))
    } else {
        None
    }
}

/// Whether both courses are named, with the same non-empty name.
pub open spec fn same_nonempty_name(a: Option<String>, b: Option<String>) -> bool {
    a is Some && b is Some && a->0@.len() > 0 && a->0@ == b->0@
}

proof fn lemma_first_without_mappers(courses: Seq<NewCourse>, j: int)
    requires
        0 <= j,
    ensures
        first_without_mappers(courses, j) is None <==> forall|k: int|
            j <= k < courses.len() ==> (#[trigger] courses[k]).mappers@.len() > 0,
    decreases courses.len() - j,
{
    if j < courses.len() {
        lemma_first_without_mappers(courses, j + 1);
    }
}

proof fn lemma_first_duplicate_name(names: Seq<Option<String>>, j: int)
    requires
        0 <= j,
    ensures
        first_duplicate_name(names, j) is None <==> forall|i: int, k: int|
            0 <= i < k && j <= k < names.len() ==> !((#[trigger] names[i]) is Some
                && (#[trigger] names[k]) is Some && names[i]->0@ == names[k]->0@),
    decreases names.len() - j,
{
    if j < names.len() {
        lemma_first_duplicate_name(names, j + 1);
    }
}

/// Submitted courses are accepted exactly when there is at least one, every
/// course lists a mapper, and no two courses share a non-empty name (empty
/// names count as no name, and unnamed courses never clash).
pub proof fn law_courses_accepted(courses: Seq<NewCourse>)
    ensures
        (courses_problem(courses) is None) == (courses.len() > 0 && (forall|k: int|
            0 <= k < courses.len() ==> (#[trigger] courses[k]).mappers@.len() > 0) && (forall|
            i: int,
            j: int,
        |
            0 <= i < j < courses.len() ==> !same_nonempty_name(
                (#[trigger] courses[i]).name,
                (#[trigger] courses[j]).name,
            ))),
{
    let normalized = courses.map_values(|c: NewCourse| normalized_course(c));
    let names = course_names(normalized);
    lemma_first_without_mappers(courses, 0);
    lemma_first_duplicate_name(names, 0);
    assert forall|i: int, j: int| 0 <= i < j < courses.len() implies (!same_nonempty_name(
        (#[trigger] courses[i]).name,
        (#[trigger] courses[j]).name,
    ) <==> !(names[i] is Some && names[j] is Some && names[i]->0@ == names[j]->0@)) by {
        assert(names[i] == none_if_empty(courses[i].name));
        assert(names[j] == none_if_empty(courses[j].name));
    }
    if first_duplicate_name(names, 0) is Some {
        let (i, j) = choose|i: int, j: int|
            0 <= i < j && 0 <= j < names.len() && (#[trigger] names[i]) is Some
                && (#[trigger] names[j]) is Some && names[i]->0@ == names[j]->0@;
        assert(names[i] == none_if_empty(courses[i].name));
        assert(names[j] == none_if_empty(courses[j].name));
        assert(same_nonempty_name(courses[i].name, courses[j].name));
    }
}

/// A map's own mappers list no one.
#[derive(Debug, Clone, Copy, PartialEq, Eq, Structural)]
pub struct NoMappers;

impl NewMap {
    /// Makes sure that a map is submitted with at least one mapper.
    pub fn check_mappers(mappers: &Vec<SteamID>) -> (r: Result<(), NoMappers>)
        ensures
            r is Ok <==> mappers@.len() > 0,
    {
        if mappers.len() == 0 {
            Err(NoMappers)
        } else {
            Ok(())
        }
    }

    /// Checks the submitted courses: every course must list mappers, there
    /// must be at least one course, and course names must be unique. Empty
    /// names and descriptions are read as absent, and courses without a name
    /// are not compared.
    ///
    /// The first course without mappers, or the first course that repeats an
    /// earlier course's name, is reported. Accepted courses are returned in
    /// order, with empty names and descriptions taken out.
    pub fn validate_courses(courses: Vec<NewCourse>) -> (r: Result<Vec<NewCourse>, InvalidCourses>)
        ensures
            courses_problem(courses@) is None ==> (r matches Ok(v) && v@ == courses@.map_values(
                |c: NewCourse| normalized_course(c),
            )),
            courses_problem(courses@) matches Some(InvalidCourses::DuplicateName(name)) ==> (
            r matches Err(InvalidCourses::DuplicateName(n)) && n@ == name@),
            courses_problem(courses@) matches Some(InvalidCourses::NoMappers { position }) ==> r
                == Err::<Vec<NewCourse>, InvalidCourses>(InvalidCourses::NoMappers { position }),
            courses_problem(courses@) matches Some(InvalidCourses::NoCourses) ==> r == Err::<
                Vec<NewCourse>,
                InvalidCourses,
            >(InvalidCourses::NoCourses),
            (r is Ok) == (courses@.len() > 0 && (forall|k: int|
                0 <= k < courses@.len() ==> (#[trigger] courses@[k]).mappers@.len() > 0) && (
            forall|i: int, j: int|
                0 <= i < j < courses@.len() ==> !same_nonempty_name(
                    (#[trigger] courses@[i]).name,
                    (#[trigger] courses@[j]).name,
                ))),
    {
        proof {
            law_courses_accepted(courses@);
        }
        let ghost input = courses@;
        let mut p: usize = 0;
        while p < courses.len()
            invariant
                p <= courses.len(),
                input == courses@,
                first_without_mappers(input, 0) == first_without_mappers(input, p as int),
            decreases courses.len() - p,
        {
            if courses[p].mappers.len() == 0 {
                return Err(InvalidCourses::NoMappers { position: p });
            }
            p = p + 1;
        }
        if courses.len() == 0 {
            return Err(InvalidCourses::NoCourses);
        }
        let ghost normalized = input.map_values(|c: NewCourse| normalized_course(c));
        let mut out: Vec<NewCourse> = Vec::new();
        proof {
            assert(input.skip(0) =~= input);
        }
        for c in it: courses.into_iter()
            invariant
                it.seq() == input,
                normalized == input.map_values(|c: NewCourse| normalized_course(c)),
                out@ == normalized.take(it.index() as int),
        {
            proof {
                assert(input[it.index() as int] == c);
            }
            let NewCourse { name, description, mappers, filters } = c;
            let course = NewCourse {
                name: text_or_none(name),
                description: text_or_none(description),
                mappers,
                filters,
            };
            out.push(course);
            proof {
                assert(out@ =~= normalized.take(it.index() + 1));
            }
        }
        proof {
            assert(out@ =~= normalized);
        }
        let ghost names = course_names(out@);
        let mut j: usize = 0;
        while j < out.len()
            invariant
                j <= out.len(),
                names == course_names(out@),
                out@ == normalized,
                normalized == input.map_values(|c: NewCourse| normalized_course(c)),
                first_without_mappers(input, 0) is None,
                input.len() > 0,
                courses@ == input,
                first_duplicate_name(names, 0) == first_duplicate_name(names, j as int),
            decreases out.len() - j,
        {
            proof {
                assert(names[j as int] == out@[j as int].name);
            }
            match &out[j].name {
                Some(name) => {
                    if name_taken_before(&out, j, name) {
                        return Err(InvalidCourses::DuplicateName(name.clone()));
                    }
                },
                None => {},
            }
            j = j + 1;
        }
        Ok(out)
    }
}

} // verus!

verus! {

/// Whether the filters' slots never decrease along the sequence.
pub open spec fn slots_ascending(s: Seq<NewFilter>) -> bool {
    forall|i: int, j: int| 0 <= i <= j < s.len() ==> slot_of(#[trigger] s[i]) <= slot_of(#[trigger] s[j])
}

/// Every slot lies between 0 and 3.
pub proof fn lemma_slot_range(f: NewFilter)
    ensures
        0 <= slot_of(f) < 4,
{
}

/// What [`insertion_point`] returns for a sorted sequence: everything before
/// it has a slot of at most `k`, everything from it on a slot above `k`.
proof fn lemma_insertion_point(sorted: Seq<NewFilter>, k: int, from: int)
    requires
        0 <= from <= sorted.len(),
        slots_ascending(sorted),
        forall|i: int| 0 <= i < from ==> slot_of(#[trigger] sorted[i]) <= k,
    ensures
        from <= insertion_point(sorted, k, from) <= sorted.len(),
        forall|i: int|
            0 <= i < insertion_point(sorted, k, from) ==> slot_of(#[trigger] sorted[i]) <= k,
        forall|i: int|
            insertion_point(sorted, k, from) <= i < sorted.len() ==> slot_of(#[trigger] sorted[i])
                > k,
    decreases sorted.len() - from,
{
    if from < sorted.len() && slot_of(sorted[from]) <= k {
        lemma_insertion_point(sorted, k, from + 1);
    } else if from < sorted.len() {
        assert forall|i: int| from <= i < sorted.len() implies slot_of(#[trigger] sorted[i]) > k by {
            assert(slot_of(sorted[from]) <= slot_of(sorted[i]));
        }
    }
}

/// Sorting keeps the length and the elements, and leaves the slots in
/// ascending order.
pub proof fn lemma_sorted_by_slot(s: Seq<NewFilter>)
    ensures
        sorted_by_slot(s).len() == s.len(),
        slots_ascending(sorted_by_slot(s)),
        forall|x: NewFilter| #[trigger] sorted_by_slot(s).contains(x) <==> s.contains(x),
    decreases s.len(),
{
    if s.len() > 0 {
        let rest = sorted_by_slot(s.drop_last());
        lemma_sorted_by_slot(s.drop_last());
        let k = slot_of(s.last());
        lemma_insertion_point(rest, k, 0);
        let ip = insertion_point(rest, k, 0);
        let res = rest.insert(ip, s.last());
        assert(res == sorted_by_slot(s));
        assert forall|i: int, j: int| 0 <= i <= j < res.len() implies slot_of(#[trigger] res[i])
            <= slot_of(#[trigger] res[j]) by {
            if i < ip && j < ip {
                assert(res[i] == rest[i] && res[j] == rest[j]);
            } else if i < ip && j == ip {
                assert(res[i] == rest[i]);
            } else if i < ip {
                assert(res[i] == rest[i] && res[j] == rest[j - 1]);
            } else if i == ip && j > ip {
                assert(res[j] == rest[j - 1]);
            } else if i > ip {
                assert(res[i] == rest[i - 1] && res[j] == rest[j - 1]);
            }
        }
        assert forall|x: NewFilter| #[trigger] res.contains(x) <==> s.contains(x) by {
            if res.contains(x) {
                let i = choose|i: int| 0 <= i < res.len() && res[i] == x;
                if i == ip {
                    assert(s[s.len() - 1] == x);
                } else {
                    let j = if i < ip {
                        i
                    } else {
                        i - 1
                    };
                    assert(rest[j] == x);
                    assert(rest.contains(x));
                    let m = choose|m: int| 0 <= m < s.drop_last().len() && s.drop_last()[m] == x;
                    assert(s[m] == x);
                }
            }
            if s.contains(x) {
                let i = choose|i: int| 0 <= i < s.len() && s[i] == x;
                if i == s.len() - 1 {
                    assert(res[ip] == x);
                } else {
                    assert(s.drop_last()[i] == x);
                    assert(s.drop_last().contains(x));
                    assert(sorted_by_slot(s.drop_last()).contains(x));
                    let m = choose|m: int| 0 <= m < rest.len() && rest[m] == x;
                    if m < ip {
                        assert(res[m] == x);
                    } else {
                        assert(res[m + 1] == x);
                    }
                }
            }
        }
    }
}

/// Whether some filter of `s` is in slot `k`.
pub open spec fn has_slot(s: Seq<NewFilter>, k: int) -> bool {
    exists|i: int| 0 <= i < s.len() && slot_of(#[trigger] s[i]) == k
}

/// The problem walk finds nothing from `p` on exactly when the filters from
/// `p` on sit in their own slots and none is a ranked filter that is too hard.
proof fn lemma_filters_problem(sorted: Seq<NewFilter>, p: int)
    requires
        sorted.len() == 4,
        0 <= p <= 4,
    ensures
        filters_problem(sorted, p) is None <==> forall|i: int|
            p <= i < 4 ==> slot_of(#[trigger] sorted[i]) == i && !too_hard_to_rank(
                sorted[i].tier,
                sorted[i].ranked_status,
            ),
    decreases 4 - p,
{
    if p < 4 {
        lemma_filters_problem(sorted, p + 1);
    }
}

/// The filters submitted for a course are accepted exactly when there is one
/// for each combination of mode and teleports (with four filters, each
/// combination appears exactly once) and no ranked filter is harder than
/// [`Tier::Death`].
pub proof fn law_filters_accepted(filters: Seq<NewFilter>)
    requires
        filters.len() == 4,
    ensures
        filters_problem(sorted_by_slot(filters), 0) is None <==> ((forall|k: int|
            0 <= k < 4 ==> #[trigger] has_slot(filters, k)) && forall|i: int|
            0 <= i < 4 ==> !too_hard_to_rank(
                (#[trigger] filters[i]).tier,
                filters[i].ranked_status,
            )),
{
    let sorted = sorted_by_slot(filters);
    lemma_sorted_by_slot(filters);
    lemma_filters_problem(sorted, 0);
    if filters_problem(sorted, 0) is None {
        assert forall|k: int| 0 <= k < 4 implies #[trigger] has_slot(filters, k) by {
            assert(slot_of(sorted[k]) == k);
            assert(sorted.contains(sorted[k]));
            assert(sorted_by_slot(filters).contains(sorted[k]));
            let i = choose|i: int| 0 <= i < filters.len() && filters[i] == sorted[k];
            assert(slot_of(filters[i]) == k);
        }
        assert forall|i: int| 0 <= i < 4 implies !too_hard_to_rank(
            (#[trigger] filters[i]).tier,
            filters[i].ranked_status,
        ) by {
            assert(filters.contains(filters[i]));
            assert(sorted_by_slot(filters).contains(filters[i]));
            let j = choose|j: int| 0 <= j < sorted.len() && sorted[j] == filters[i];
            assert(!too_hard_to_rank(sorted[j].tier, sorted[j].ranked_status));
        }
    }
    if (forall|k: int| 0 <= k < 4 ==> #[trigger] has_slot(filters, k)) && (forall|i: int|
        0 <= i < 4 ==> !too_hard_to_rank((#[trigger] filters[i]).tier, filters[i].ranked_status)) {
        assert forall|k: int| 0 <= k < 4 implies #[trigger] has_slot(sorted, k) by {
            assert(has_slot(filters, k));
            let i = choose|i: int| 0 <= i < filters.len() && slot_of(#[trigger] filters[i]) == k;
            assert(filters.contains(filters[i]));
            assert(sorted_by_slot(filters).contains(filters[i]));
            let j = choose|j: int| 0 <= j < sorted.len() && sorted[j] == filters[i];
            assert(slot_of(sorted[j]) == k);
        }
        lemma_slot_range(sorted[0]);
        lemma_slot_range(sorted[1]);
        lemma_slot_range(sorted[2]);
        lemma_slot_range(sorted[3]);
        assert(slot_of(sorted[0]) <= slot_of(sorted[1]) <= slot_of(sorted[2]) <= slot_of(
            sorted[3],
        ));
        assert(has_slot(sorted, 0) && has_slot(sorted, 1) && has_slot(sorted, 2) && has_slot(
            sorted,
            3,
        ));
        assert(slot_of(sorted[0]) == 0 && slot_of(sorted[1]) == 1 && slot_of(sorted[2]) == 2
            && slot_of(sorted[3]) == 3);
        assert forall|i: int| 0 <= i < 4 implies !too_hard_to_rank(
            (#[trigger] sorted[i]).tier,
            sorted[i].ranked_status,
        ) by {
            assert(sorted.contains(sorted[i]));
            assert(sorted_by_slot(filters).contains(sorted[i]));
            let j = choose|j: int| 0 <= j < filters.len() && filters[j] == sorted[i];
            assert(!too_hard_to_rank(filters[j].tier, filters[j].ranked_status));
        }
    }
}

} // verus!
