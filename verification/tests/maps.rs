use std::collections::BTreeMap;

use cs2kz_api::kz::{GlobalStatus, Mode as FilterMode, RankedStatus, SteamID};
use cs2kz_api::maps::download::is_downloaded_map_file;
use cs2kz_api::maps::handlers::by_identifier::{
    check_course_updates, check_remaining_course_mappers, check_remaining_map_mappers,
    resolve_filter_updates, CourseUpdateError,
};
use cs2kz_api::maps::handlers::root::{consecutive_course_ids, consecutive_filter_ids};
use cs2kz_api::maps::map::{find_course_by_local_id, modes_of_game, plan_invalidation, UpdateMapError};
use cs2kz_api::maps::models::full_map::{Course, CourseFilter, FullMap};
use cs2kz_api::maps::models::new_map::{
    text_or_none, InvalidCourses, InvalidFilters, NewCourse, NewFilter, NewMap, NoMappers,
};
use cs2kz_api::maps::models::update::{
    CourseUpdate, FilterUpdate, InvalidFilterUpdate, MapUpdate, RawFilterUpdate,
};
use cs2kz_api::maps::models::{CourseID, FilterID, MapID};
use cs2kz_api::maps::routes::update::{
    check_courses, check_filters, plan_filter_update, FilterColumn, MapUpdateError,
};
use cs2kz_api::maps::{
    CourseId, CreateMapError, Filter, FilterId, FilterNotes, Filters, MapId, MapState, Tier,
};
use cs2kz_api::mode::{Game, Mode};
use cs2kz_api::players::Player;
use cs2kz_api::users::UserId;

#[test]
fn tiers_and_numbers() {
    assert_eq!(Tier::VeryEasy.number(), 1);
    assert_eq!(Tier::Death.number(), 8);
    assert_eq!(Tier::Impossible.number(), 10);
    assert_eq!(Tier::from_number(7), Some(Tier::Extreme));
    assert_eq!(Tier::from_number(0), None);
    assert_eq!(Tier::from_number(11), None);
    for n in 1..=10u8 {
        assert_eq!(Tier::from_number(n).unwrap().number(), n);
    }
    assert!(Tier::Death.is_humanly_possible());
    assert!(!Tier::Unfeasible.is_humanly_possible());
    assert!(!Tier::Impossible.is_humanly_possible());
    assert!(Tier::Hard < Tier::Death);
}

#[test]
fn frozen_states() {
    assert!(MapState::Pending.is_frozen());
    assert!(MapState::Approved.is_frozen());
    assert!(MapState::Completed.is_frozen());
    assert!(!MapState::Graveyard.is_frozen());
    assert!(!MapState::WIP.is_frozen());
}

#[test]
fn modes_belong_to_games() {
    assert_eq!(Mode::VanillaCS2.game(), Game::CS2);
    assert_eq!(Mode::Classic.game(), Game::CS2);
    assert_eq!(Mode::KZTimer.game(), Game::CSGO);
    assert_eq!(Mode::SimpleKZ.game(), Game::CSGO);
    assert_eq!(Mode::VanillaCSGO.game(), Game::CSGO);
    assert_eq!(modes_of_game(Game::CS2), (Some(Mode::VanillaCS2), Some(Mode::Classic), None));
    assert_eq!(
        modes_of_game(Game::CSGO),
        (Some(Mode::KZTimer), Some(Mode::SimpleKZ), Some(Mode::VanillaCSGO))
    );
}

fn filter(id: u16, nub: Tier) -> Filter {
    Filter { id: FilterId(id), nub_tier: nub, pro_tier: nub, ranked: true, notes: FilterNotes::empty() }
}

fn filter_id_of(filters: &Filters, mode: Mode) -> Option<u16> {
    match (mode, filters) {
        (Mode::VanillaCS2, Filters::CS2 { vnl, .. }) => Some(vnl.id.0),
        (Mode::Classic, Filters::CS2 { ckz, .. }) => Some(ckz.id.0),
        (Mode::KZTimer, Filters::CSGO { kzt, .. }) => Some(kzt.id.0),
        (Mode::SimpleKZ, Filters::CSGO { skz, .. }) => Some(skz.id.0),
        (Mode::VanillaCSGO, Filters::CSGO { vnl, .. }) => Some(vnl.id.0),
        _ => None,
    }
}

#[test]
fn filters_from_rows() {
    let mut filters = Filters::from_first_row(Mode::Classic, filter(5, Tier::Hard));
    assert_eq!(filter_id_of(&filters, Mode::Classic), Some(5));
    assert_eq!(filter_id_of(&filters, Mode::VanillaCS2), Some(5));
    assert_eq!(filter_id_of(&filters, Mode::KZTimer), None);
    filters.set(Mode::VanillaCS2, filter(6, Tier::Easy));
    assert_eq!(filter_id_of(&filters, Mode::VanillaCS2), Some(6));
    assert_eq!(filter_id_of(&filters, Mode::Classic), Some(5));

    let mut csgo = Filters::from_first_row(Mode::SimpleKZ, filter(1, Tier::Medium));
    csgo.set(Mode::KZTimer, filter(2, Tier::Medium));
    assert_eq!(filter_id_of(&csgo, Mode::KZTimer), Some(2));
    assert_eq!(filter_id_of(&csgo, Mode::SimpleKZ), Some(1));
    assert_eq!(filter_id_of(&csgo, Mode::VanillaCSGO), Some(1));
}

#[test]
fn invalidating_old_versions() {
    let me = UserId(1);
    let other = UserId(2);
    let id = |n: u16| MapId::new(n).unwrap();

    assert!(plan_invalidation(&Vec::new(), me).unwrap().is_empty());

    let ids = plan_invalidation(
        &vec![(id(3), MapState::WIP, me), (id(4), MapState::Graveyard, other)],
        me,
    )
    .unwrap();
    assert_eq!(ids, vec![id(3), id(4)]);

    match plan_invalidation(
        &vec![(id(3), MapState::WIP, me), (id(4), MapState::Approved, me), (id(5), MapState::Pending, me)],
        me,
    ) {
        Err(CreateMapError::MapIsFrozen { id: frozen, state }) => {
            assert_eq!(frozen, id(4));
            assert_eq!(state, MapState::Approved);
        },
        other => panic!("unexpected {other:?}"),
    }

    assert!(matches!(
        plan_invalidation(&vec![(id(3), MapState::WIP, other)], me),
        Err(CreateMapError::NotTheMapper)
    ));
}

fn player(id: u64, name: &str) -> Player {
    Player { name: String::from(name), steam_id: SteamID(id) }
}

fn course_filter(id: u16, mode: FilterMode, teleports: bool) -> CourseFilter {
    CourseFilter {
        id: FilterID(id),
        mode,
        teleports,
        tier: Tier::Medium,
        ranked_status: RankedStatus::Ranked,
        notes: None,
    }
}

fn full_map(id: u16, mapper: Player, course: Course) -> FullMap {
    FullMap {
        id: MapID(id),
        name: String::from("kz_grotto"),
        description: None,
        global_status: GlobalStatus::Global,
        workshop_id: 3070194623,
        checksum: 1,
        mappers: vec![mapper],
        courses: vec![course],
        created_on: 0,
    }
}

fn course(id: u16, mapper: Player, filter: CourseFilter) -> Course {
    Course { id: CourseID(id), name: None, description: None, mappers: vec![mapper], filters: vec![filter] }
}

#[test]
fn merging_maps() {
    let a = full_map(1, player(10, "a"), course(1, player(10, "a"), course_filter(1, FilterMode::Vanilla, false)));
    let b = full_map(1, player(11, "b"), course(1, player(10, "a"), course_filter(2, FilterMode::Vanilla, true)));
    let merged = a.merge(b);
    assert_eq!(merged.mappers.len(), 2);
    assert_eq!(merged.courses.len(), 1);
    assert_eq!(merged.courses[0].mappers.len(), 1);
    let ids: Vec<u16> = merged.courses[0].filters.iter().map(|f| f.id.0).collect();
    assert_eq!(ids, vec![1, 2]);

    let c = full_map(1, player(10, "a"), course(2, player(12, "c"), course_filter(3, FilterMode::Classic, false)));
    let merged = merged.merge(c);
    assert_eq!(merged.mappers.len(), 2);
    let course_ids: Vec<u16> = merged.courses.iter().map(|c| c.id.0).collect();
    assert_eq!(course_ids, vec![1, 2]);
}

#[test]
fn normalizing_rows() {
    let rows = vec![
        full_map(1, player(10, "a"), course(1, player(10, "a"), course_filter(1, FilterMode::Vanilla, false))),
        full_map(1, player(10, "a"), course(1, player(10, "a"), course_filter(2, FilterMode::Vanilla, true))),
        full_map(2, player(11, "b"), course(2, player(11, "b"), course_filter(5, FilterMode::Classic, false))),
        full_map(3, player(12, "c"), course(3, player(12, "c"), course_filter(9, FilterMode::Classic, true))),
    ];
    let maps = FullMap::normalize_sql_results(rows, 2);
    let ids: Vec<u16> = maps.iter().map(|m| m.id.0).collect();
    assert_eq!(ids, vec![1, 2]);
    assert_eq!(maps[0].courses[0].filters.len(), 2);
    assert!(FullMap::normalize_sql_results(Vec::new(), 10).is_empty());
}

fn new_filter(mode: FilterMode, teleports: bool, tier: Tier, ranked_status: RankedStatus) -> NewFilter {
    NewFilter { mode, teleports, tier, ranked_status, notes: None }
}

#[test]
fn new_course_filters_are_sorted() {
    let filters = vec![
        new_filter(FilterMode::Classic, true, Tier::Hard, RankedStatus::Ranked),
        new_filter(FilterMode::Vanilla, true, Tier::Hard, RankedStatus::Ranked),
        new_filter(FilterMode::Classic, false, Tier::Hard, RankedStatus::Ranked),
        new_filter(FilterMode::Vanilla, false, Tier::Impossible, RankedStatus::Unranked),
    ];
    let sorted = NewCourse::validate_filters(filters).unwrap();
    let keys: Vec<(FilterMode, bool)> = sorted.iter().map(|f| (f.mode, f.teleports)).collect();
    assert_eq!(
        keys,
        vec![
            (FilterMode::Vanilla, false),
            (FilterMode::Vanilla, true),
            (FilterMode::Classic, false),
            (FilterMode::Classic, true)
        ]
    );
}

#[test]
fn new_course_filter_errors() {
    let missing = vec![
        new_filter(FilterMode::Vanilla, false, Tier::Hard, RankedStatus::Ranked),
        new_filter(FilterMode::Vanilla, false, Tier::Hard, RankedStatus::Ranked),
        new_filter(FilterMode::Classic, false, Tier::Hard, RankedStatus::Ranked),
        new_filter(FilterMode::Classic, true, Tier::Hard, RankedStatus::Ranked),
    ];
    assert_eq!(
        NewCourse::validate_filters(missing).unwrap_err(),
        InvalidFilters::Missing { mode: FilterMode::Vanilla, teleports: false }
    );

    let too_hard = vec![
        new_filter(FilterMode::Vanilla, false, Tier::Hard, RankedStatus::Ranked),
        new_filter(FilterMode::Vanilla, true, Tier::Unfeasible, RankedStatus::Ranked),
        new_filter(FilterMode::Classic, false, Tier::Hard, RankedStatus::Ranked),
        new_filter(FilterMode::Classic, true, Tier::Hard, RankedStatus::Ranked),
    ];
    assert_eq!(
        NewCourse::validate_filters(too_hard).unwrap_err(),
        InvalidFilters::TierTooHigh { tier: Tier::Unfeasible }
    );
}

fn new_course(name: Option<&str>) -> NewCourse {
    NewCourse { name: name.map(String::from), description: None, mappers: vec![SteamID(1)], filters: Vec::new() }
}

#[test]
fn new_map_course_names() {
    let ok = NewMap::validate_courses(vec![new_course(Some("Main")), new_course(None), new_course(None), new_course(Some("Bonus"))]).unwrap();
    assert_eq!(ok.len(), 4);
    assert_eq!(
        NewMap::validate_courses(vec![new_course(Some("Main")), new_course(Some("Bonus")), new_course(Some("Main"))]).unwrap_err(),
        InvalidCourses::DuplicateName(String::from("Main"))
    );
    assert_eq!(NewMap::validate_courses(Vec::new()).unwrap_err(), InvalidCourses::NoCourses);
    let mut lonely = new_course(Some("Bonus"));
    lonely.mappers.clear();
    assert_eq!(
        NewMap::validate_courses(vec![new_course(Some("Main")), lonely, new_course(Some("Main"))]).unwrap_err(),
        InvalidCourses::NoMappers { position: 1 }
    );
    // empty names count as no name
    let ok = NewMap::validate_courses(vec![new_course(Some("")), new_course(Some("")), new_course(Some("Main"))]).unwrap();
    assert_eq!(ok[0].name, None);
    assert_eq!(ok[1].name, None);
    assert_eq!(ok[2].name.as_deref(), Some("Main"));
}

#[test]
fn map_mappers_and_texts() {
    assert_eq!(NewMap::check_mappers(&Vec::new()), Err(NoMappers));
    assert_eq!(NewMap::check_mappers(&vec![SteamID(5)]), Ok(()));
    assert_eq!(text_or_none(Some(String::new())), None);
    assert_eq!(text_or_none(Some(String::from("a"))).as_deref(), Some("a"));
    assert_eq!(text_or_none(None), None);
}

fn raw(mode: FilterMode, teleports: bool, tier: Option<Tier>, ranked_status: Option<RankedStatus>) -> RawFilterUpdate {
    RawFilterUpdate { mode, teleports, update: FilterUpdate { tier, ranked_status, notes: None } }
}

#[test]
fn filter_update_validation() {
    assert!(CourseUpdate::validate_filter_updates(None).unwrap().is_none());
    let ok = CourseUpdate::validate_filter_updates(Some(vec![
        raw(FilterMode::Classic, true, Some(Tier::Hard), None),
        raw(FilterMode::Vanilla, true, None, Some(RankedStatus::Ranked)),
    ]))
    .unwrap()
    .unwrap();
    // validated updates come in key order: by mode, then Pro before TP
    let keys: Vec<(FilterMode, bool)> = ok.iter().map(|(k, _)| *k).collect();
    assert_eq!(keys, vec![(FilterMode::Vanilla, true), (FilterMode::Classic, true)]);
    assert_eq!(ok[1].1.tier, Some(Tier::Hard));
    // an empty list means no updates
    assert!(CourseUpdate::validate_filter_updates(Some(Vec::new())).unwrap().is_none());
    let all = CourseUpdate::validate_filter_updates(Some(vec![
        raw(FilterMode::Classic, true, Some(Tier::Hard), None),
        raw(FilterMode::Classic, false, Some(Tier::Hard), None),
        raw(FilterMode::Vanilla, true, Some(Tier::Hard), None),
        raw(FilterMode::Vanilla, false, Some(Tier::Hard), None),
    ]))
    .unwrap()
    .unwrap();
    let keys: Vec<(FilterMode, bool)> = all.iter().map(|(k, _)| *k).collect();
    assert_eq!(
        keys,
        vec![
            (FilterMode::Vanilla, false),
            (FilterMode::Vanilla, true),
            (FilterMode::Classic, false),
            (FilterMode::Classic, true)
        ]
    );

    assert_eq!(
        CourseUpdate::validate_filter_updates(Some(vec![
            raw(FilterMode::Classic, true, Some(Tier::Hard), None),
            raw(FilterMode::Classic, true, Some(Tier::Easy), None),
        ]))
        .unwrap_err(),
        InvalidFilterUpdate::Duplicate { mode: FilterMode::Classic, teleports: true }
    );
    assert_eq!(
        CourseUpdate::validate_filter_updates(Some(vec![raw(
            FilterMode::Vanilla,
            false,
            Some(Tier::Impossible),
            Some(RankedStatus::Ranked)
        )]))
        .unwrap_err(),
        InvalidFilterUpdate::TierTooHigh { tier: Tier::Impossible, mode: FilterMode::Vanilla, teleports: false }
    );
    // too hard, but not ranked: accepted
    assert!(CourseUpdate::validate_filter_updates(Some(vec![raw(
        FilterMode::Vanilla,
        false,
        Some(Tier::Impossible),
        Some(RankedStatus::Unranked)
    )]))
    .is_ok());
}

#[test]
fn empty_updates() {
    let update = FilterUpdate { tier: None, ranked_status: None, notes: None };
    assert!(update.is_empty());
    let update = FilterUpdate { tier: None, ranked_status: None, notes: Some(None) };
    assert!(!update.is_empty());
    let map_update = MapUpdate {
        description: None,
        global_status: None,
        workshop_id: Some(1),
        check_workshop: false,
        added_mappers: None,
        removed_mappers: None,
        course_updates: None,
    };
    assert!(!map_update.is_empty());
    assert!(map_update.needs_workshop_check());
    let untouched = MapUpdate {
        description: None,
        global_status: None,
        workshop_id: None,
        check_workshop: false,
        added_mappers: None,
        removed_mappers: None,
        course_updates: Some(BTreeMap::new()),
    };
    assert!(!untouched.needs_workshop_check());
}

#[test]
fn course_updates_must_belong_to_the_map() {
    let valid = vec![CourseID(1), CourseID(2)];
    assert!(check_course_updates(MapID(7), &valid, &vec![CourseID(2), CourseID(1)]).is_ok());
    assert_eq!(
        check_course_updates(MapID(7), &valid, &vec![CourseID(1), CourseID(3)]).unwrap_err(),
        CourseUpdateError::CourseDoesNotBelongToMap { course_id: CourseID(3), map_id: MapID(7) }
    );
    assert_eq!(
        check_course_updates(MapID(7), &valid, &vec![CourseID(1), CourseID(1)]).unwrap_err(),
        CourseUpdateError::CourseDoesNotBelongToMap { course_id: CourseID(1), map_id: MapID(7) }
    );
}

#[test]
fn filter_updates_resolve_to_ids() {
    let valid = vec![
        ((FilterMode::Vanilla, false), FilterID(10)),
        ((FilterMode::Vanilla, true), FilterID(11)),
        ((FilterMode::Classic, false), FilterID(12)),
        ((FilterMode::Classic, true), FilterID(13)),
    ];
    assert_eq!(
        resolve_filter_updates(&valid, &vec![(FilterMode::Classic, true), (FilterMode::Vanilla, false)]).unwrap(),
        vec![FilterID(13), FilterID(10)]
    );
    assert_eq!(
        resolve_filter_updates(&valid, &vec![(FilterMode::Classic, true), (FilterMode::Classic, true)]).unwrap_err(),
        CourseUpdateError::DuplicateFilter { mode: FilterMode::Classic, teleports: true }
    );
}

#[test]
fn mappers_may_not_run_out() {
    assert_eq!(check_remaining_map_mappers(0).unwrap_err(), CourseUpdateError::MapMustHaveMappers);
    assert!(check_remaining_map_mappers(2).is_ok());
    assert_eq!(
        check_remaining_course_mappers(CourseID(4), 0).unwrap_err(),
        CourseUpdateError::CourseMustHaveMappers { course_id: CourseID(4) }
    );
    assert!(check_remaining_course_mappers(CourseID(4), 1).is_ok());
}

#[test]
fn route_update_checks() {
    assert_eq!(check_courses(5, &Vec::new(), &vec![1]).unwrap_err(), MapUpdateError::UnknownMap { map_id: 5 });
    assert!(check_courses(5, &vec![1, 2], &vec![2]).is_ok());
    assert_eq!(
        check_courses(5, &vec![1, 2], &vec![2, 9, 8]).unwrap_err(),
        MapUpdateError::InvalidCourse { course_id: 9, map_id: 5 }
    );
    assert!(check_filters(3, &vec![10, 11, 12, 13], &vec![13, 10]).is_ok());
    assert_eq!(
        check_filters(3, &vec![10, 11, 12, 13], &vec![14]).unwrap_err(),
        MapUpdateError::InvalidFilter { filter_id: 14, course_id: 3 }
    );
}

#[test]
fn planning_filter_updates() {
    assert!(plan_filter_update(1, None, None, true).unwrap().is_empty());
    assert_eq!(
        plan_filter_update(1, Some(Tier::Hard), None, true).unwrap(),
        vec![FilterColumn::Tier, FilterColumn::Notes]
    );
    assert_eq!(
        plan_filter_update(1, Some(Tier::Hard), Some(RankedStatus::Ranked), false).unwrap(),
        vec![FilterColumn::Tier, FilterColumn::RankedStatus]
    );
    assert_eq!(
        plan_filter_update(1, None, Some(RankedStatus::Never), true).unwrap(),
        vec![FilterColumn::RankedStatus, FilterColumn::Notes]
    );
    assert_eq!(
        plan_filter_update(8, Some(Tier::Unfeasible), Some(RankedStatus::Ranked), false).unwrap_err(),
        MapUpdateError::TierTooHighForRanked { filter_id: 8 }
    );
    assert!(plan_filter_update(8, Some(Tier::Unfeasible), Some(RankedStatus::Unranked), false).is_ok());
    assert!(plan_filter_update(8, Some(Tier::Impossible), None, false).is_ok());
}

#[test]
fn downloaded_map_files() {
    assert!(is_downloaded_map_file("3070194623_kz_grotto.vpk", 3070194623));
    assert!(is_downloaded_map_file("+42_x.vpk", 42));
    assert!(!is_downloaded_map_file("3070194623_kz_grotto.vpk", 3070194624));
    assert!(!is_downloaded_map_file("3070194623_kz_grotto.bsp", 3070194623));
    assert!(!is_downloaded_map_file("3070194623_kz_grotto.dir.vpk", 3070194623));
    assert!(!is_downloaded_map_file("3070194623.vpk", 3070194623));
    assert!(!is_downloaded_map_file("3070194623_kz_grotto", 3070194623));
    assert!(!is_downloaded_map_file("abc_kz_grotto.vpk", 3070194623));
    assert!(!is_downloaded_map_file("", 1));
}

#[test]
fn inserted_ids_are_consecutive() {
    assert_eq!(
        consecutive_course_ids(7, 3).unwrap(),
        vec![CourseID(7), CourseID(8), CourseID(9)]
    );
    assert_eq!(consecutive_course_ids(70000, 0).unwrap(), Vec::new());
    assert_eq!(consecutive_course_ids(65535, 1).unwrap(), vec![CourseID(65535)]);
    assert!(consecutive_course_ids(65535, 2).is_none());
    assert!(consecutive_course_ids(70000, 1).is_none());
    assert_eq!(
        consecutive_filter_ids(100).unwrap(),
        [FilterID(100), FilterID(101), FilterID(102), FilterID(103)]
    );
    assert_eq!(consecutive_filter_ids(65532).unwrap()[3], FilterID(65535));
    assert!(consecutive_filter_ids(65533).is_none());
}

#[test]
fn course_updates_by_local_id() {
    let id = |n: u16| CourseId::new(n).unwrap();
    let courses = vec![(1u16, id(10)), (2, id(11)), (1, id(12))];
    assert_eq!(find_course_by_local_id(&courses, 2).unwrap(), id(11));
    // the last pair for a local ID counts
    assert_eq!(find_course_by_local_id(&courses, 1).unwrap(), id(12));
    assert!(matches!(
        find_course_by_local_id(&courses, 3),
        Err(UpdateMapError::InvalidCourseLocalId(3))
    ));
    assert!(matches!(
        find_course_by_local_id(&Vec::new(), 1),
        Err(UpdateMapError::InvalidCourseLocalId(1))
    ));
}

#[test]
fn empty_texts_and_lists_are_absent() {
    let filters = vec![
        NewFilter { mode: FilterMode::Classic, teleports: true, tier: Tier::Hard, ranked_status: RankedStatus::Ranked, notes: Some(String::new()) },
        NewFilter { mode: FilterMode::Vanilla, teleports: true, tier: Tier::Hard, ranked_status: RankedStatus::Ranked, notes: Some(String::from("tp")) },
        new_filter(FilterMode::Classic, false, Tier::Hard, RankedStatus::Ranked),
        new_filter(FilterMode::Vanilla, false, Tier::Hard, RankedStatus::Ranked),
    ];
    let sorted = NewCourse::validate_filters(filters).unwrap();
    assert_eq!(sorted[1].notes.as_deref(), Some("tp"));
    assert_eq!(sorted[3].notes, None);

    let update = MapUpdate {
        description: Some(String::new()),
        global_status: None,
        workshop_id: None,
        check_workshop: true,
        added_mappers: Some(Vec::new()),
        removed_mappers: Some(vec![SteamID(3)]),
        course_updates: Some(BTreeMap::new()),
    }
    .normalized();
    assert!(update.added_mappers.is_none());
    assert_eq!(update.removed_mappers, Some(vec![SteamID(3)]));
    assert!(update.course_updates.is_none());
    assert_eq!(update.description.as_deref(), Some(""));
    assert!(update.check_workshop);

    let course = CourseUpdate {
        name: Some(None),
        description: None,
        added_mappers: Some(vec![SteamID(1)]),
        removed_mappers: Some(Vec::new()),
        filter_updates: None,
    }
    .normalized();
    assert_eq!(course.name, Some(None));
    assert_eq!(course.added_mappers, Some(vec![SteamID(1)]));
    assert!(course.removed_mappers.is_none());
}
