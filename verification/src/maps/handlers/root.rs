//! The decisions made while creating a map through `PUT /maps`: the IDs that
//! the database gave the inserted courses and filters.
//!
//! Rows inserted with one statement get consecutive IDs, starting at the ID
//! that the database reports for the first of them.

use crate::maps::models::{CourseID, FilterID};
use vstd::prelude::*;

verus! {

/// Whether `count` consecutive IDs starting at `first` all fit into a `u16`.
pub open spec fn ids_fit(first: u64, count: nat) -> bool {
    count == 0 || first + count - 1 <= u16::MAX
}

/// The IDs of `count` courses inserted with one statement, the first of
/// which got the ID `first`; `None` if some of them do
/// not fit into a course ID.
pub fn consecutive_course_ids(first: u64, count: usize) -> (r: Option<Vec<CourseID>>)
    ensures
        r is Some <==> ids_fit(first, count as nat),
        r matches Some(ids) ==> ids@.len() == count && forall|i: int|
            0 <= i < count ==> (#[trigger] ids@[i]).0 == first + i,
{
    if count > 0 && (first > u16::MAX as u64 || (u16::MAX as u64 - first) < (count - 1) as u64) {
        return None;
    }
    let mut ids: Vec<CourseID> = Vec::new();
    let mut i: usize = 0;
    while i < count
        invariant
            ids_fit(first, count as nat),
            i <= count,
            ids@.len() == i,
            forall|k: int| 0 <= k < i ==> (#[trigger] ids@[k]).0 == first + k,
        decreases count - i,
    {
        let id = (first + i as u64) as u16;
        ids.push(CourseID(id));
        i = i + 1;
    }
    Some(ids)
}

/// The IDs of the four filters of a course, inserted with one statement, the
/// first of which got the ID `first`; `None` if
/// some of them do not fit into a filter ID.
pub fn consecutive_filter_ids(first: u64) -> (r: Option<[FilterID; 4]>)
    ensures
        r is Some <==> ids_fit(first, 4),
        r matches Some(ids) ==> forall|i: int| 0 <= i < 4 ==> (#[trigger] ids@[i]).0 == first + i,
{
    if first > (u16::MAX - 3) as u64 {
        return None;
    }
    let base = first as u16;
    let ids = [FilterID(base), FilterID(base + 1), FilterID(base + 2), FilterID(base + 3)];
    proof {
        assert(ids@[0].0 == first && ids@[1].0 == first + 1 && ids@[2].0 == first + 2
            && ids@[3].0 == first + 3);
    }
    Some(ids)
}

} // verus!
