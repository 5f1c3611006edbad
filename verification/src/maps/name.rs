use vstd::prelude::*;

verus! {

/// The name of a KZ map, such as `kz_grotto`.
///
/// A map name starts with `kz_`, is 4 to 27 characters long and consists of
/// ASCII letters and underscores only.
#[derive(Debug)]
pub struct MapName {
    name: String,
}

/// Why a string is not a valid [`MapName`].
#[derive(Debug, Clone, Copy, PartialEq, Eq, Structural)]
pub enum InvalidMapName {
    /// must start with `kz_`
    MissingPrefix,
    /// must be 4-27 characters long
    InvalidLength,
    /// must not contain the given character
    InvalidCharacter(char),
}

/// The longest a map name may be, in characters.
pub const MAX_MAP_NAME_LEN: usize = 27;

/// The shortest a map name may be, in characters.
pub const MIN_MAP_NAME_LEN: usize = 4;

/// Characters that may appear in a map name.
pub open spec fn is_map_name_char(c: char) -> bool {
    ('a' <= c && c <= 'z') || ('A' <= c && c <= 'Z') || c == '_'
}

/// Whether `s` begins with `kz_`.
pub open spec fn has_kz_prefix(s: Seq<char>) -> bool {
    s.len() >= 3 && s[0] == 'k' && s[1] == 'z' && s[2] == '_'
}

/// The first character among `s[from..limit]` that may not appear in a map
/// name, if there is one.
pub open spec fn first_disallowed(s: Seq<char>, from: int, limit: int) -> Option<char>
    decreases limit - from,
{
    if from >= limit || from >= s.len() || from < 0 {
        None
    } else if !is_map_name_char(s[from]) {
        Some(s[from])
    } else {
        first_disallowed(s, from + 1, limit)
    }
}

/// The outcome of validating `s` as a map name.
///
/// The prefix is checked first. Then the characters are read in order: the
/// first disallowed character among the first 27 is reported; if there is
/// none but there are more than 27 characters, the length is reported.
/// Finally names shorter than 4 characters are rejected.
pub open spec fn map_name_check(s: Seq<char>) -> Result<(), InvalidMapName> {
    if !has_kz_prefix(s) {
        Err(InvalidMapName::MissingPrefix)
    } else if let Some(c) = first_disallowed(s, 0, MAX_MAP_NAME_LEN as int) {
        Err(InvalidMapName::InvalidCharacter(c))
    } else if s.len() > MAX_MAP_NAME_LEN || s.len() < MIN_MAP_NAME_LEN {
        Err(InvalidMapName::InvalidLength)
    } else {
        Ok(())
    }
}

/// A disallowed character found by [`first_disallowed`] lies in the scanned
/// range and every character before it is allowed.
pub proof fn lemma_first_disallowed(s: Seq<char>, from: int, limit: int)
    requires
        0 <= from,
    ensures
        first_disallowed(s, from, limit) is None <==> (forall|i: int|
            from <= i < limit && i < s.len() ==> is_map_name_char(#[trigger] s[i])),
        first_disallowed(s, from, limit) matches Some(c) ==> exists|i: int|
            from <= i < limit && i < s.len() && s[i] == c && !is_map_name_char(c),
    decreases limit - from,
{
    if from < limit && from < s.len() && is_map_name_char(s[from]) {
        lemma_first_disallowed(s, from + 1, limit);
    }
}

/// A map name is accepted exactly when it starts with `kz_`, is 4 to 27
/// characters long and consists of ASCII letters and underscores only.
pub proof fn law_map_name_rules(s: Seq<char>)
    ensures
        map_name_check(s) is Ok <==> (has_kz_prefix(s) && MIN_MAP_NAME_LEN <= s.len()
            <= MAX_MAP_NAME_LEN && forall|i: int| 0 <= i < s.len() ==> is_map_name_char(#[trigger] s[i])),
{
    lemma_first_disallowed(s, 0, MAX_MAP_NAME_LEN as int);
}

fn is_map_name_char_exec(c: char) -> (r: bool)
    ensures
        r == is_map_name_char(c),
{
    ('a' <= c && c <= 'z') || ('A' <= c && c <= 'Z') || c == '_'
}

impl MapName {
    #[verifier::type_invariant]
    spec fn valid(self) -> bool {
        map_name_check(self.name@) is Ok
    }

    /// The text of the name.
    pub closed spec fn text(self) -> Seq<char> {
        self.name@
    }

    /// Checks whether `value` is a valid map name.
    pub fn validate(value: &str) -> (r: Result<(), InvalidMapName>)
        ensures
            r == map_name_check(value@),
    {
        let len = value.unicode_len();
        if !(len >= 3 && value.get_char(0) == 'k' && value.get_char(1) == 'z'
            && value.get_char(2) == '_') {
            return Err(InvalidMapName::MissingPrefix);
        }
        let mut i: usize = 0;
        while i < len
            invariant
                len == value@.len(),
                i <= len,
                i <= MAX_MAP_NAME_LEN,
                has_kz_prefix(value@),
                first_disallowed(value@, 0, MAX_MAP_NAME_LEN as int) == first_disallowed(
                    value@,
                    i as int,
                    MAX_MAP_NAME_LEN as int,
                ),
            decreases len - i,
        {
            if i == MAX_MAP_NAME_LEN {
                return Err(InvalidMapName::InvalidLength);
            }
            let c = value.get_char(i);
            if !is_map_name_char_exec(c) {
                return Err(InvalidMapName::InvalidCharacter(c));
            }
            i = i + 1;
        }
        if len < MIN_MAP_NAME_LEN {
            return Err(InvalidMapName::InvalidLength);
        }
        Ok(())
    }

    /// Parses a map name (`FromStr`).
    pub fn parse(value: &str) -> (r: Result<MapName, InvalidMapName>)
        ensures
            map_name_check(value@) is Ok ==> (r matches Ok(name) && name.text() == value@),
            map_name_check(value@) matches Err(e) ==> r == Err::<MapName, _>(e),
    {
        match Self::validate(value) {
            Ok(()) => Ok(MapName { name: value.to_owned() }),
            Err(e) => Err(e),
        }
    }

    /// The name as a string slice.
    pub fn as_str(&self) -> (r: &str)
        ensures
            r@ == self.text(),
            map_name_check(r@) is Ok,
    {
        proof {
            use_type_invariant(self);
        }
        self.name.as_str()
    }
}

} // verus!
