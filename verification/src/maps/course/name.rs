use crate::text::{all_digits, is_digit};
use vstd::prelude::*;

verus! {

/// The name of a course within a map, such as `Main`.
///
/// A course name is not empty and is not an integer (so it can never be
/// confused with a course ID).
#[derive(Debug)]
pub struct CourseName {
    name: String,
}

/// Why a string is not a valid [`CourseName`].
#[derive(Debug, Clone, Copy, PartialEq, Eq, Structural)]
pub enum InvalidCourseName {
    /// may not be empty
    Empty,
    /// may not be an integer
    Integer,
}

/// Whether `s` is written as an integer: an optional `+` or `-` followed by
/// one or more decimal digits.
pub open spec fn is_integer_text(s: Seq<char>) -> bool {
    let digits = if s.len() > 0 && (s[0] == '+' || s[0] == '-') {
        s.drop_first()
    } else {
        s
    };
    digits.len() > 0 && all_digits(digits)
}

fn integer_text(value: &str) -> (r: bool)
    ensures
        r == is_integer_text(value@),
{
    let len = value.unicode_len();
    let mut start: usize = 0;
    if len > 0 && (value.get_char(0) == '+' || value.get_char(0) == '-') {
        start = 1;
    }
    if start >= len {
        return false;
    }
    let ghost digits = value@.skip(start as int);
    let mut i: usize = start;
    while i < len
        invariant
            len == value@.len(),
            start <= i <= len,
            digits == value@.skip(start as int),
            start == 0 || start == 1,
            (start == 1) == (len > 0 && (value@[0] == '+' || value@[0] == '-')),
            forall|k: int| start <= k < i ==> is_digit(#[trigger] value@[k]),
        decreases len - i,
    {
        let c = value.get_char(i);
        if !('0' <= c && c <= '9') {
            proof {
                assert(digits[i - start] == c);
                assert(!is_digit(digits[i - start]));
                if start == 0 {
                    assert(digits =~= value@);
                } else {
                    assert(digits =~= value@.drop_first());
                }
            }
            return false;
        }
        i = i + 1;
    }
    proof {
        assert forall|k: int| 0 <= k < digits.len() implies is_digit(#[trigger] digits[k]) by {
            assert(digits[k] == value@[k + start]);
        }
        if start == 0 {
            assert(digits =~= value@);
        } else {
            assert(digits =~= value@.drop_first());
        }
    }
    true
}

/// The outcome of validating `s` as a course name: it may not be empty, and
/// it may not be an integer.
pub open spec fn course_name_check(s: Seq<char>) -> Result<(), InvalidCourseName> {
    if s.len() == 0 {
        Err(InvalidCourseName::Empty)
    } else if is_integer_text(s) {
        Err(InvalidCourseName::Integer)
    } else {
        Ok(())
    }
}

impl CourseName {
    #[verifier::type_invariant]
    spec fn valid(self) -> bool {
        course_name_check(self.name@) is Ok
    }

    /// The text of the name.
    pub closed spec fn text(self) -> Seq<char> {
        self.name@
    }

    /// Checks whether `value` is a valid course name.
    pub fn validate(value: &str) -> (r: Result<(), InvalidCourseName>)
        ensures
            r == course_name_check(value@),
    {
        if value.is_empty() {
            return Err(InvalidCourseName::Empty);
        }
        if integer_text(value) {
            return Err(InvalidCourseName::Integer);
        }
        Ok(())
    }

    /// Parses a course name (`FromStr`).
    pub fn parse(value: &str) -> (r: Result<CourseName, InvalidCourseName>)
        ensures
            course_name_check(value@) is Ok ==> (r matches Ok(name) && name.text() == value@),
            course_name_check(value@) matches Err(e) ==> r == Err::<CourseName, _>(e),
    {
        match Self::validate(value) {
            Ok(()) => Ok(CourseName { name: value.to_owned() }),
            Err(e) => Err(e),
        }
    }

    /// The name as a string slice.
    pub fn as_str(&self) -> (r: &str)
        ensures
            r@ == self.text(),
            course_name_check(r@) is Ok,
    {
        proof {
            use_type_invariant(self);
        }
        self.name.as_str()
    }
}

} // verus!
