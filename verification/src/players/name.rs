use vstd::prelude::*;

verus! {

/// A player's name; any non-empty string.
#[derive(Debug)]
pub struct PlayerName {
    name: String,
}

/// Why a string is not a valid [`PlayerName`].
#[derive(Debug, Clone, Copy, PartialEq, Eq, Structural)]
pub enum InvalidPlayerName {
    /// may not be empty
    Empty,
}

/// The outcome of validating `s` as a player name.
pub open spec fn player_name_check(s: Seq<char>) -> Result<(), InvalidPlayerName> {
    if s.len() == 0 {
        Err(InvalidPlayerName::Empty)
    } else {
        Ok(())
    }
}

impl PlayerName {
    #[verifier::type_invariant]
    spec fn valid(self) -> bool {
        player_name_check(self.name@) is Ok
    }

    /// The text of the name.
    pub closed spec fn text(self) -> Seq<char> {
        self.name@
    }

    /// Checks whether `value` is a valid player name.
    pub fn validate(value: &str) -> (r: Result<(), InvalidPlayerName>)
        ensures
            r == player_name_check(value@),
    {
        if value.is_empty() {
            return Err(InvalidPlayerName::Empty);
        }
        Ok(())
    }

    /// Parses a player name (`FromStr`).
    pub fn parse(value: &str) -> (r: Result<PlayerName, InvalidPlayerName>)
        ensures
            player_name_check(value@) is Ok ==> (r matches Ok(name) && name.text() == value@),
            player_name_check(value@) matches Err(e) ==> r == Err::<PlayerName, _>(e),
    {
        match Self::validate(value) {
            Ok(()) => Ok(PlayerName { name: value.to_owned() }),
            Err(e) => Err(e),
        }
    }

    /// The name as a string slice.
    pub fn as_str(&self) -> (r: &str)
        ensures
            r@ == self.text(),
            r@.len() > 0,
    {
        proof {
            use_type_invariant(self);
        }
        self.name.as_str()
    }
}

} // verus!
