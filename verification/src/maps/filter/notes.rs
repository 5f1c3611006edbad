use vstd::prelude::*;

verus! {

/// Free-text notes about a course filter.
///
/// Any text is accepted; the empty text is the default.
#[derive(Debug)]
pub struct FilterNotes {
    text: String,
}

/// Why a string is not a valid [`FilterNotes`]. No string is rejected, so
/// the library never builds a value of this type.
#[derive(Debug, Clone, Copy, PartialEq, Eq)]
pub struct InvalidFilterNotes {
    never: (),
}

impl FilterNotes {
    /// The text held.
    pub closed spec fn text(self) -> Seq<char> {
        self.text@
    }

    /// Checks whether `value` is acceptable; every string is.
    pub fn validate(value: &str) -> (r: Result<(), InvalidFilterNotes>)
        ensures
            r is Ok,
    {
        Ok(())
    }

    /// Parses the text (`FromStr`); this never fails.
    pub fn parse(value: &str) -> (r: Result<FilterNotes, InvalidFilterNotes>)
        ensures
            r matches Ok(v) && v.text() == value@,
    {
        match Self::validate(value) {
            Ok(()) => Ok(FilterNotes { text: value.to_owned() }),
            Err(e) => Err(e),
        }
    }

    /// The empty text (`Default`).
    pub fn empty() -> (r: FilterNotes)
        ensures
            r.text() == Seq::<char>::empty(),
    {
        FilterNotes { text: String::new() }
    }

    /// A copy of the text (`Clone`).
    pub fn duplicate(&self) -> (r: Self)
        ensures
            r.text() == self.text(),
    {
        Self { text: self.text.clone() }
    }

    /// The text as a string slice.
    pub fn as_str(&self) -> (r: &str)
        ensures
            r@ == self.text(),
    {
        self.text.as_str()
    }
}

} // verus!
