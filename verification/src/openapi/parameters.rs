//! Query and path parameter types.

use vstd::prelude::*;

verus! {

/// Limit the number of returned results; used for pagination.
///
/// `MAX` is the largest accepted value and `DEFAULT` the value used when the
/// parameter is absent (the API uses 200 and 50).
#[derive(Debug, Clone, Copy, PartialEq, Eq, Hash)]
pub struct Limit<const MAX: u64, const DEFAULT: u64>(pub u64);

/// A requested limit that exceeds the maximum.
#[derive(Debug, Clone, Copy, PartialEq, Eq, Structural)]
pub struct LimitTooLarge {
    /// The requested limit.
    pub value: u64,
    /// The largest accepted limit.
    pub max: u64,
}

impl<const MAX: u64, const DEFAULT: u64> Default for Limit<MAX, DEFAULT> {
    fn default() -> (r: Self)
        ensures
            r.0 == DEFAULT,
    {
        Limit(DEFAULT)
    }
}

impl<const MAX: u64, const DEFAULT: u64> Limit<MAX, DEFAULT> {
    /// Reads a limit from an optional query value.
    ///
    /// A missing (`null`) value counts as 0; values above `MAX` are refused.
    pub fn from_query(value: Option<u64>) -> (r: Result<Self, LimitTooLarge>)
        ensures
            ({
                let v = match value {
                    Some(v) => v,
                    None => 0,
                };
                &&& v <= MAX ==> r == Ok::<Self, LimitTooLarge>(Limit(v))
                &&& v > MAX ==> r == Err::<Self, LimitTooLarge>(LimitTooLarge { value: v, max: MAX })
            }),
    {
        let v = match value {
            Some(v) => v,
            None => 0,
        };
        if v <= MAX {
            Ok(Limit(v))
        } else {
            Err(LimitTooLarge { value: v, max: MAX })
        }
    }

    /// The limit as a `usize` (`From<Limit> for usize`); the value is
    /// truncated on targets where it does not fit.
    pub fn as_usize(self) -> (r: usize)
        ensures
            r == self.0 as usize,
    {
        self.0 as usize
    }
}

/// The number of results to skip; used for pagination.
#[derive(Debug, Clone, Copy, PartialEq, Eq, PartialOrd, Ord, Hash, Structural)]
pub struct Offset(pub i64);

impl Default for Offset {
    /// No results are skipped unless asked otherwise.
    fn default() -> (r: Self)
        ensures
            r.0 == 0,
    {
        Offset(0)
    }
}

impl Offset {
    /// Reads an offset from an optional query value; a
    /// missing value counts as 0.
    pub fn from_query(value: Option<i64>) -> (r: Offset)
        ensures
            r.0 == match value {
                Some(v) => v,
                None => 0,
            },
    {
        match value {
            Some(v) => Offset(v),
            None => Offset(0),
        }
    }
}

/// A generic sorting order for results.
#[derive(Debug, Clone, Copy, PartialEq, Eq, PartialOrd, Ord, Hash, Structural)]
pub enum SortingOrder {
    /// Sort from lowest to highest.
    Ascending,
    /// Sort from highest to lowest.
    Descending,
}

impl Default for SortingOrder {
    /// Results are sorted from lowest to highest unless asked otherwise.
    fn default() -> (r: Self)
        ensures
            r == SortingOrder::Ascending,
    {
        SortingOrder::Ascending
    }
}

impl SortingOrder {
    /// Returns part of a SQL query that can be used in an `ORDER BY` clause.
    pub fn sql(&self) -> (r: &'static str)
        ensures
            r@ == (match self {
                SortingOrder::Ascending => " ASC "@,
                SortingOrder::Descending => " DESC "@,
            }),
    {
        match self {
            SortingOrder::Ascending => " ASC ",
            SortingOrder::Descending => " DESC ",
        }
    }
}

/// Stand-in for a SteamID path parameter in the API description.
pub struct SteamID;

/// Stand-in for a player name-or-SteamID path parameter.
pub struct PlayerIdentifier;

/// Stand-in for a map ID path parameter.
pub struct MapID;

/// Stand-in for a map name-or-ID path parameter.
pub struct MapIdentifier;

/// Stand-in for a server ID path parameter.
pub struct ServerID;

/// Stand-in for a server name-or-ID path parameter.
pub struct ServerIdentifier;

} // verus!
