use crate::text::{parse_nonzero_u16, parsed_u16};
use vstd::prelude::*;

verus! {

/// The API's ID for a course; unique across all courses.
///
/// IDs are never zero.
#[derive(Debug, Clone, Copy, PartialEq, Eq, Hash, Structural)]
pub struct CourseId {
    id: u16,
}

/// Why a string is not a valid [`CourseId`]: it is not a non-zero `u16`.
#[derive(Debug)]
pub struct ParseCourseIdError {
    pub source: std::num::ParseIntError,
}

impl CourseId {
    #[verifier::type_invariant]
    spec fn nonzero(self) -> bool {
        self.id != 0
    }

    /// The numeric value of the ID.
    pub closed spec fn value(self) -> u16 {
        self.id
    }

    /// Wraps a non-zero integer (`From<NonZero<u16>>`); zero gives `None`.
    pub fn new(id: u16) -> (r: Option<CourseId>)
        ensures
            id == 0 <==> r is None,
            r matches Some(v) ==> v.value() == id,
    {
        if id == 0 {
            None
        } else {
            Some(CourseId { id })
        }
    }

    /// The numeric value of the ID (`Into<NonZero<u16>>`).
    pub fn get(&self) -> (r: u16)
        ensures
            r == self.value(),
            r != 0,
    {
        proof {
            use_type_invariant(self);
        }
        self.id
    }

    /// Parses an ID (`FromStr`): an optional `+` and decimal digits
    /// denoting a non-zero `u16`.
    pub fn parse(value: &str) -> (r: Result<CourseId, ParseCourseIdError>)
        ensures
            r is Ok <==> (parsed_u16(value@) matches Some(v) && v != 0),
            r matches Ok(id) ==> parsed_u16(value@) == Some(id.value()),
    {
        match parse_nonzero_u16(value) {
            Ok(id) => Ok(CourseId { id }),
            Err(source) => Err(ParseCourseIdError { source }),
        }
    }
}

} // verus!
