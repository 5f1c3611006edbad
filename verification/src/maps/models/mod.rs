//! Shared data types for maps: IDs and the map / course / filter records as
//! the database returns them.

use vstd::prelude::*;

verus! {

/// The ID of a map.
#[derive(Debug, Clone, Copy, PartialEq, Eq, PartialOrd, Ord, Hash, Structural)]
pub struct MapID(pub u16);

/// The ID of a course.
#[derive(Debug, Clone, Copy, PartialEq, Eq, PartialOrd, Ord, Hash, Structural)]
pub struct CourseID(pub u16);

/// The ID of a course filter.
#[derive(Debug, Clone, Copy, PartialEq, Eq, PartialOrd, Ord, Hash, Structural)]
pub struct FilterID(pub u16);

} // verus!

pub mod full_map;
pub mod new_map;
pub mod update;

pub use self::full_map::{Course, CourseFilter, FullMap};
pub use self::new_map::{NewCourse, NewFilter, NewMap, CreatedMap};
pub use self::update::{CourseUpdate, FilterUpdate, FilterUpdates, MapUpdate, RawFilterUpdate};
