//! Things that can be identified either by their name or by an ID.

use crate::maps::models::{CourseID, MapID};
use crate::servers::ServerID;
use crate::text::{decimal_digits, lemma_decimal_digits, parse_u16, parsed_u16, u16_to_string};
use vstd::prelude::*;

verus! {

/// A generic "name or ID".
#[derive(Debug, Clone, PartialEq, Eq)]
pub enum NameOrID<ID> {
    Name(String),
    ID(ID),
}

/// A server name or ID.
pub type ServerIdentifier = NameOrID<ServerID>;

/// A map name or ID.
pub type MapIdentifier = NameOrID<MapID>;

/// A course name or ID.
pub type CourseIdentifier = NameOrID<CourseID>;

impl NameOrID<MapID> {
    /// Parses a map identifier (`FromStr`): text that reads as a `u16` is an
    /// ID, anything else is a name. This never fails.
    pub fn parse(s: &str) -> (r: NameOrID<MapID>)
        ensures
            parsed_u16(s@) matches Some(v) ==> r == NameOrID::<MapID>::ID(MapID(v)),
            parsed_u16(s@) is None ==> (r matches NameOrID::Name(n) && n@ == s@),
    {
        match parse_u16(s) {
            Some(v) => NameOrID::ID(MapID(v)),
            None => NameOrID::Name(s.to_owned()),
        }
    }

    /// The identifier as text (`Display`): the name, or the ID in decimal.
    pub fn to_text(&self) -> (r: String)
        ensures
            r@ == match self {
                NameOrID::Name(n) => n@,
                NameOrID::ID(id) => decimal_digits(id.0 as nat),
            },
    {
        match self {
            NameOrID::Name(n) => n.clone(),
            NameOrID::ID(id) => u16_to_string(id.0),
        }
    }
}

impl NameOrID<CourseID> {
    /// Parses a course identifier (`FromStr`): text that reads as a `u16` is
    /// an ID, anything else is a name. This never fails.
    pub fn parse(s: &str) -> (r: NameOrID<CourseID>)
        ensures
            parsed_u16(s@) matches Some(v) ==> r == NameOrID::<CourseID>::ID(CourseID(v)),
            parsed_u16(s@) is None ==> (r matches NameOrID::Name(n) && n@ == s@),
    {
        match parse_u16(s) {
            Some(v) => NameOrID::ID(CourseID(v)),
            None => NameOrID::Name(s.to_owned()),
        }
    }

    /// The identifier as text (`Display`): the name, or the ID in decimal.
    pub fn to_text(&self) -> (r: String)
        ensures
            r@ == match self {
                NameOrID::Name(n) => n@,
                NameOrID::ID(id) => decimal_digits(id.0 as nat),
            },
    {
        match self {
            NameOrID::Name(n) => n.clone(),
            NameOrID::ID(id) => u16_to_string(id.0),
        }
    }
}

impl NameOrID<ServerID> {
    /// Parses a server identifier (`FromStr`): text that reads as a `u16` is
    /// an ID, anything else is a name. This never fails.
    pub fn parse(s: &str) -> (r: NameOrID<ServerID>)
        ensures
            parsed_u16(s@) matches Some(v) ==> r == NameOrID::<ServerID>::ID(ServerID(v)),
            parsed_u16(s@) is None ==> (r matches NameOrID::Name(n) && n@ == s@),
    {
        match parse_u16(s) {
            Some(v) => NameOrID::ID(ServerID(v)),
            None => NameOrID::Name(s.to_owned()),
        }
    }

    /// The identifier as text (`Display`): the name, or the ID in decimal.
    pub fn to_text(&self) -> (r: String)
        ensures
            r@ == match self {
                NameOrID::Name(n) => n@,
                NameOrID::ID(id) => decimal_digits(id.0 as nat),
            },
    {
        match self {
            NameOrID::Name(n) => n.clone(),
            NameOrID::ID(id) => u16_to_string(id.0),
        }
    }
}

/// Writing an ID as text and reading the text back gives the same ID: the
/// decimal digits of any `u16` read as that `u16`, so `parse` of `to_text`
/// of an ID is that ID again.
pub proof fn law_id_text_roundtrip(n: u16)
    ensures
        parsed_u16(decimal_digits(n as nat)) == Some(n),
{
    lemma_decimal_digits(n as nat);
}

} // verus!
