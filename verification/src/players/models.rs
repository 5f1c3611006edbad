//! Shared data types for players.

use crate::kz::SteamID;
use crate::maps::models::CourseID;
use std::collections::BTreeMap;
use vstd::prelude::*;

verus! {

/// A KZ player.
#[derive(Debug, Clone)]
pub struct Player {
    /// The player's name.
    pub name: String,
    /// The player's SteamID.
    pub steam_id: SteamID,
}

/// Whether some player in `players` has the SteamID `id`.
pub open spec fn has_player(players: Seq<Player>, id: SteamID) -> bool {
    exists|i: int| 0 <= i < players.len() && (#[trigger] players[i]).steam_id == id
}

/// Appends, in order, each player of `new` whose SteamID is not yet among the
/// players gathered so far.
pub open spec fn add_new_players(acc: Seq<Player>, new: Seq<Player>) -> Seq<Player>
    decreases new.len(),
{
    if new.len() == 0 {
        acc
    } else {
        let next = if has_player(acc, new[0].steam_id) {
            acc
        } else {
            acc.push(new[0])
        };
        add_new_players(next, new.drop_first())
    }
}

/// Whether no two players in `players` share a SteamID.
pub open spec fn unique_players(players: Seq<Player>) -> bool {
    forall|i: int, j: int|
        0 <= i < j < players.len() ==> (#[trigger] players[i]).steam_id != (#[trigger] players[j]).steam_id
}

/// Whether some player in `players` has SteamID `id` (scanning the whole
/// vector).
pub fn contains_player(players: &Vec<Player>, id: SteamID) -> (r: bool)
    ensures
        r == has_player(players@, id),
{
    let mut i: usize = 0;
    while i < players.len()
        invariant
            i <= players.len(),
            forall|k: int| 0 <= k < i ==> (#[trigger] players@[k]).steam_id != id,
        decreases players.len() - i,
    {
        if players[i].steam_id == id {
            return true;
        }
        i = i + 1;
    }
    false
}

/// Moves each player of `new` whose SteamID is not yet in `players` to the
/// end of `players`, in order.
pub fn append_new_players(players: &mut Vec<Player>, new: Vec<Player>)
    ensures
        final(players)@ == add_new_players(old(players)@, new@),
{
    let ghost new_view = new@;
    proof {
        assert(new_view.skip(0) =~= new_view);
    }
    for p in it: new.into_iter()
        invariant
            it.seq() == new_view,
            add_new_players(old(players)@, new_view) == add_new_players(
                players@,
                new_view.skip(it.index() as int),
            ),
    {
        proof {
            assert(new_view.skip(it.index() as int)[0] == p);
            assert(new_view.skip(it.index() as int).drop_first() =~= new_view.skip(
                it.index() + 1,
            ));
        }
        if !contains_player(players, p.steam_id) {
            players.push(p);
        }
    }
    proof {
        assert(new_view.skip(new_view.len() as int) =~= Seq::<Player>::empty());
    }
}

} // verus!

verus! {

/// Adding the new players of one list to another keeps the first list as a
/// prefix, loses no SteamID of either list, and introduces no duplicate
/// SteamID: if the first list has none, neither has the result.
pub proof fn lemma_add_new_players(acc: Seq<Player>, new: Seq<Player>)
    ensures
        acc.len() <= add_new_players(acc, new).len(),
        add_new_players(acc, new).subrange(0, acc.len() as int) == acc,
        forall|id: SteamID|
            #[trigger] has_player(add_new_players(acc, new), id) <==> (has_player(acc, id)
                || has_player(new, id)),
        unique_players(acc) ==> unique_players(add_new_players(acc, new)),
    decreases new.len(),
{
    if new.len() > 0 {
        let p = new[0];
        let next = if has_player(acc, p.steam_id) {
            acc
        } else {
            acc.push(p)
        };
        lemma_add_new_players(next, new.drop_first());
        let res = add_new_players(acc, new);
        assert(res == add_new_players(next, new.drop_first()));
        assert(res.subrange(0, acc.len() as int) =~= acc) by {
            assert(next.subrange(0, acc.len() as int) =~= acc);
            assert(res.subrange(0, next.len() as int) == next);
            assert forall|k: int| 0 <= k < acc.len() implies res.subrange(0, acc.len() as int)[k]
                == acc[k] by {
                assert(res.subrange(0, next.len() as int)[k] == next[k]);
            }
        }
        assert forall|id: SteamID| #[trigger]
            has_player(res, id) <==> (has_player(acc, id) || has_player(new, id)) by {
            if has_player(new, id) {
                let i = choose|i: int| 0 <= i < new.len() && (#[trigger] new[i]).steam_id == id;
                if i == 0 {
                    if !has_player(acc, id) {
                        assert(next[acc.len() as int].steam_id == id);
                    }
                } else {
                    assert(new.drop_first()[i - 1].steam_id == id);
                }
            }
            if has_player(acc, id) {
                let i = choose|i: int| 0 <= i < acc.len() && (#[trigger] acc[i]).steam_id == id;
                assert(next[i].steam_id == id);
            }
            if has_player(next, id) {
                let i = choose|i: int| 0 <= i < next.len() && (#[trigger] next[i]).steam_id == id;
                if i < acc.len() {
                    assert(acc[i].steam_id == id);
                } else {
                    assert(new[0].steam_id == id);
                }
            }
            if has_player(new.drop_first(), id) {
                let i = choose|i: int|
                    0 <= i < new.drop_first().len() && (#[trigger] new.drop_first()[i]).steam_id
                        == id;
                assert(new[i + 1].steam_id == id);
            }
        }
        if unique_players(acc) {
            assert(unique_players(next)) by {
                if !has_player(acc, p.steam_id) {
                    assert forall|i: int, j: int|
                        0 <= i < j < next.len() implies (#[trigger] next[i]).steam_id != (
                        #[trigger] next[j]).steam_id by {
                        if j == acc.len() {
                            assert(acc[i].steam_id == next[i].steam_id);
                        } else {
                            assert(acc[i] == next[i] && acc[j] == next[j]);
                        }
                    }
                }
            }
        }
    }
}

/// The ID of a player's game session on a server.
#[derive(Debug, Clone, Copy, PartialEq, Eq, PartialOrd, Ord, Hash, Structural)]
pub struct GameSessionID(pub u64);

/// The ID of a player's session on a single course.
#[derive(Debug, Clone, Copy, PartialEq, Eq, PartialOrd, Ord, Hash, Structural)]
pub struct CourseSessionID(pub u64);

/// Response payload for a recorded game session: the ID of the game session
/// and the IDs of its course sessions, by course.
#[derive(Debug)]
pub struct CreatedGameSession {
    /// The ID of the created game session.
    pub game_session_id: GameSessionID,
    /// The IDs of the created course sessions.
    pub course_session_ids: BTreeMap<CourseID, CourseSessionID>,
}

} // verus!
