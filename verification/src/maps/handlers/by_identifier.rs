//! The decisions made while updating a map through `PATCH /maps/{map_id}`:
//! which courses and filters an update may touch.

use crate::kz::Mode;
use crate::maps::models::{CourseID, FilterID, MapID};
use vstd::prelude::*;

verus! {

/// Why an update to a map's courses was refused.
#[derive(Debug, Clone, Copy, PartialEq, Eq, Structural)]
pub enum CourseUpdateError {
    /// The course is not one of the map's courses (or was named twice).
    CourseDoesNotBelongToMap { course_id: CourseID, map_id: MapID },
    /// The filter is not one of the course's filters (or was named twice).
    DuplicateFilter { mode: Mode, teleports: bool },
    /// Removing the mappers would leave the map without any.
    MapMustHaveMappers,
    /// Removing the mappers would leave the course without any.
    CourseMustHaveMappers { course_id: CourseID },
}

/// Whether `id` occurs in `ids`.
pub open spec fn has_course_id(ids: Seq<CourseID>, id: CourseID) -> bool {
    exists|i: int| 0 <= i < ids.len() && ids[i] == id
}

/// The first requested course among `requested[j..]` that is not one of the
/// map's courses, or that was already requested earlier.
pub open spec fn first_foreign_course(valid: Seq<CourseID>, requested: Seq<CourseID>, j: int) -> Option<
    CourseID,
>
    decreases requested.len() - j,
{
    if j < 0 || j >= requested.len() {
        None
    } else if !has_course_id(valid, requested[j]) || has_course_id(requested.take(j), requested[j]) {
        Some(requested[j])
    } else {
        first_foreign_course(valid, requested, j + 1)
    }
}

fn contains_course_id(ids: &Vec<CourseID>, upto: usize, id: CourseID) -> (r: bool)
    requires
        upto <= ids.len(),
    ensures
        r == has_course_id(ids@.take(upto as int), id),
{
    let mut i: usize = 0;
    while i < upto
        invariant
            i <= upto <= ids.len(),
            forall|k: int| 0 <= k < i ==> ids@[k] != id,
        decreases upto - i,
    {
        if ids[i] == id {
            proof {
                assert(ids@.take(upto as int)[i as int] == id);
            }
            return true;
        }
        i = i + 1;
    }
    proof {
        assert forall|k: int| 0 <= k < upto implies ids@.take(upto as int)[k] != id by {
            assert(ids@.take(upto as int)[k] == ids@[k]);
        }
    }
    false
}

/// Checks that every course an update names belongs to the map.
///
/// `valid` are the IDs of the map's courses and `requested` the IDs named by
/// the update, in order; each valid ID may be used once. The first ID that
/// does not fit is reported.
pub fn check_course_updates(map_id: MapID, valid: &Vec<CourseID>, requested: &Vec<CourseID>) -> (r:
    Result<(), CourseUpdateError>)
    ensures
        first_foreign_course(valid@, requested@, 0) is None ==> r is Ok,
        first_foreign_course(valid@, requested@, 0) matches Some(id) ==> r == Err::<
            (),
            CourseUpdateError,
        >(CourseUpdateError::CourseDoesNotBelongToMap { course_id: id, map_id }),
{
    let mut j: usize = 0;
    while j < requested.len()
        invariant
            j <= requested.len(),
            first_foreign_course(valid@, requested@, 0) == first_foreign_course(
                valid@,
                requested@,
                j as int,
            ),
        decreases requested.len() - j,
    {
        let id = requested[j];
        proof {
            assert(valid@.take(valid.len() as int) =~= valid@);
        }
        let known = contains_course_id(valid, valid.len(), id);
        let repeated = contains_course_id(requested, j, id);
        if !known || repeated {
            return Err(CourseUpdateError::CourseDoesNotBelongToMap { course_id: id, map_id });
        }
        j = j + 1;
    }
    Ok(())
}

/// The filter ID that `valid` lists for the filter `key`, if any.
pub open spec fn filter_id_for(valid: Seq<((Mode, bool), FilterID)>, key: (Mode, bool)) -> Option<
    FilterID,
>
    decreases valid.len(),
{
    if valid.len() == 0 {
        None
    } else if valid[0].0 == key {
        Some(valid[0].1)
    } else {
        filter_id_for(valid.drop_first(), key)
    }
}

/// Whether `key` occurs in `keys`.
pub open spec fn has_key(keys: Seq<(Mode, bool)>, key: (Mode, bool)) -> bool {
    exists|i: int| 0 <= i < keys.len() && keys[i] == key
}

/// Resolving filter updates against the course's filters: the first key
/// among `requested[j..]` without a filter, or already used earlier, fails;
/// otherwise the IDs of the requested filters, in order.
pub open spec fn resolve_filters(
    valid: Seq<((Mode, bool), FilterID)>,
    requested: Seq<(Mode, bool)>,
    j: int,
) -> Result<Seq<FilterID>, (Mode, bool)>
    decreases requested.len() - j,
{
    if j < 0 || j >= requested.len() {
        Ok(Seq::empty())
    } else if filter_id_for(valid, requested[j]) is None || has_key(requested.take(j), requested[j]) {
        Err(requested[j])
    } else {
        match resolve_filters(valid, requested, j + 1) {
            Ok(rest) => Ok(seq![filter_id_for(valid, requested[j])->0] + rest),
            Err(e) => Err(e),
        }
    }
}

fn lookup_filter(valid: &Vec<((Mode, bool), FilterID)>, key: (Mode, bool)) -> (r: Option<FilterID>)
    ensures
        r == filter_id_for(valid@, key),
{
    let mut i: usize = 0;
    proof {
        assert(valid@.skip(0) =~= valid@);
    }
    while i < valid.len()
        invariant
            i <= valid.len(),
            filter_id_for(valid@, key) == filter_id_for(valid@.skip(i as int), key),
        decreases valid.len() - i,
    {
        proof {
            assert(valid@.skip(i as int).drop_first() =~= valid@.skip(i + 1));
        }
        let (k, id) = valid[i];
        if k.0 == key.0 && k.1 == key.1 {
            return Some(id);
        }
        i = i + 1;
    }
    None
}

fn contains_key(keys: &Vec<(Mode, bool)>, upto: usize, key: (Mode, bool)) -> (r: bool)
    requires
        upto <= keys.len(),
    ensures
        r == has_key(keys@.take(upto as int), key),
{
    let mut i: usize = 0;
    while i < upto
        invariant
            i <= upto <= keys.len(),
            forall|k: int| 0 <= k < i ==> keys@[k] != key,
        decreases upto - i,
    {
        let k = keys[i];
        if k.0 == key.0 && k.1 == key.1 {
            proof {
                assert(keys@.take(upto as int)[i as int] == key);
            }
            return true;
        }
        i = i + 1;
    }
    proof {
        assert forall|k: int| 0 <= k < upto implies keys@.take(upto as int)[k] != key by {
            assert(keys@.take(upto as int)[k] == keys@[k]);
        }
    }
    false
}

/// Finds the filters that filter updates are for.
///
/// `valid` lists the course's filters by mode and teleports, and `requested`
/// the filters named by the updates, in order; each filter may be used once.
/// The first request that does not fit is reported as a duplicate filter.
/// Every course has four filters.
pub fn resolve_filter_updates(
    valid: &Vec<((Mode, bool), FilterID)>,
    requested: &Vec<(Mode, bool)>,
) -> (r: Result<Vec<FilterID>, CourseUpdateError>)
    requires
        valid.len() == 4,
    ensures
        resolve_filters(valid@, requested@, 0) matches Ok(ids) ==> (r matches Ok(v) && v@ == ids),
        resolve_filters(valid@, requested@, 0) matches Err(key) ==> r == Err::<
            Vec<FilterID>,
            CourseUpdateError,
        >(CourseUpdateError::DuplicateFilter { mode: key.0, teleports: key.1 }),
{
    let mut ids: Vec<FilterID> = Vec::new();
    let mut j: usize = 0;
    while j < requested.len()
        invariant
            j <= requested.len(),
            resolve_filters(valid@, requested@, 0) == match resolve_filters(
                valid@,
                requested@,
                j as int,
            ) {
                Ok(rest) => Ok(ids@ + rest),
                Err(e) => Err(e),
            },
        decreases requested.len() - j,
    {
        let key = requested[j];
        let found = lookup_filter(valid, key);
        let repeated = contains_key(requested, j, key);
        match found {
            Some(id) if !repeated => {
                let ghost before = ids@;
                ids.push(id);
                proof {
                    match resolve_filters(valid@, requested@, j + 1) {
                        Ok(rest) => {
                            assert(before + (seq![id] + rest) =~= ids@ + rest);
                        },
                        Err(_) => {},
                    }
                }
            },
            _ => {
                return Err(CourseUpdateError::DuplicateFilter { mode: key.0, teleports: key.1 });
            },
        }
        j = j + 1;
    }
    proof {
        assert(ids@ + Seq::<FilterID>::empty() =~= ids@);
    }
    Ok(ids)
}

/// Checks what is left after removing mappers from a map:
/// a map must keep at least one mapper.
pub fn check_remaining_map_mappers(remaining: u64) -> (r: Result<(), CourseUpdateError>)
    ensures
        remaining == 0 <==> r == Err::<(), CourseUpdateError>(
            CourseUpdateError::MapMustHaveMappers,
        ),
        remaining > 0 <==> r is Ok,
{
    if remaining == 0 {
        Err(CourseUpdateError::MapMustHaveMappers)
    } else {
        Ok(())
    }
}

/// Checks what is left after removing mappers from a course:
/// a course must keep at least one mapper.
pub fn check_remaining_course_mappers(course_id: CourseID, remaining: u64) -> (r: Result<
    (),
    CourseUpdateError,
>)
    ensures
        remaining == 0 <==> r == Err::<(), CourseUpdateError>(
            CourseUpdateError::CourseMustHaveMappers { course_id },
        ),
        remaining > 0 <==> r is Ok,
{
    if remaining == 0 {
        Err(CourseUpdateError::CourseMustHaveMappers { course_id })
    } else {
        Ok(())
    }
}

} // verus!
