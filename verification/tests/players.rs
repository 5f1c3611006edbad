use std::collections::BTreeMap;

use cs2kz_api::kz::SteamID;
use cs2kz_api::maps::models::CourseID;
use cs2kz_api::players::models::{append_new_players, contains_player};
use cs2kz_api::players::{CourseSessionID, CreatedGameSession, GameSessionID, Player};

fn player(id: u64, name: &str) -> Player {
    Player { name: String::from(name), steam_id: SteamID(id) }
}

#[test]
fn players_are_told_apart_by_steam_id() {
    let players = vec![player(1, "a"), player(2, "b")];
    assert!(contains_player(&players, SteamID(2)));
    assert!(!contains_player(&players, SteamID(3)));
    assert!(!contains_player(&Vec::new(), SteamID(1)));
}

#[test]
fn appending_new_players() {
    let mut players = vec![player(1, "a"), player(2, "b")];
    append_new_players(&mut players, vec![player(2, "renamed"), player(3, "c"), player(3, "c again"), player(1, "x")]);
    let ids: Vec<u64> = players.iter().map(|p| p.steam_id.0).collect();
    assert_eq!(ids, vec![1, 2, 3]);
    assert_eq!(players[1].name, "b");
    assert_eq!(players[2].name, "c");
}

#[test]
fn created_game_session() {
    let mut course_session_ids = BTreeMap::new();
    course_session_ids.insert(CourseID(1), CourseSessionID(10));
    let created = CreatedGameSession { game_session_id: GameSessionID(5), course_session_ids };
    assert_eq!(created.game_session_id, GameSessionID(5));
    assert_eq!(created.course_session_ids[&CourseID(1)], CourseSessionID(10));
}
