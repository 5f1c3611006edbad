use cs2kz_api::checksum::Checksum;
use cs2kz_api::maps::map::{filters_in_creation_order, NewCS2Filters, NewCSGOFilters, NewFilter, NewFilters};
use cs2kz_api::maps::stream::{maps_from_rows, KzMap, MapRow};
use cs2kz_api::maps::{
    CourseDescription, CourseId, CourseName, FilterId, FilterNotes, Filters, MapDescription, MapId,
    MapName, MapState, Tier,
};
use cs2kz_api::mode::{Game, Mode};
use cs2kz_api::users::{UserId, Username};

fn row(map: u16, course: u16, mapper: u64, filter: u16, mode: Mode, tier: Tier) -> MapRow {
    MapRow {
        id: MapId::new(map).unwrap(),
        workshop_id: 3070194623,
        name: MapName::parse("kz_grotto").unwrap(),
        description: MapDescription::parse("").unwrap(),
        game: mode.game(),
        state: MapState::Approved,
        checksum: Checksum(7),
        created_at: 1700000000,
        mapper_id: UserId(1),
        mapper_name: Username(String::from("creator")),
        course_id: CourseId::new(course).unwrap(),
        course_local_id: course,
        course_name: CourseName::parse(&format!("course {course}")).unwrap(),
        course_description: CourseDescription::parse("").unwrap(),
        course_mapper_id: UserId(mapper),
        course_mapper_name: Username(format!("mapper {mapper}")),
        filter_id: FilterId(filter),
        filter_mode: mode,
        filter_nub_tier: tier,
        filter_pro_tier: tier,
        filter_ranked: true,
        filter_notes: FilterNotes::empty(),
    }
}

fn filter_ids(map: &KzMap, course: u16) -> Vec<u16> {
    match &map.courses[&course].filters {
        Filters::CS2 { vnl, ckz } => vec![vnl.id.0, ckz.id.0],
        Filters::CSGO { kzt, skz, vnl } => vec![kzt.id.0, skz.id.0, vnl.id.0],
    }
}

#[test]
fn rows_become_maps() {
    let rows = vec![
        row(2, 5, 10, 100, Mode::VanillaCS2, Tier::Hard),
        row(2, 5, 11, 100, Mode::VanillaCS2, Tier::Hard),
        row(2, 5, 10, 101, Mode::Classic, Tier::Extreme),
        row(2, 5, 11, 101, Mode::Classic, Tier::Extreme),
        row(2, 6, 12, 102, Mode::VanillaCS2, Tier::Easy),
        row(1, 3, 10, 50, Mode::Classic, Tier::Medium),
    ];
    let maps = maps_from_rows(rows);
    assert_eq!(maps.len(), 2);
    assert_eq!(maps[0].id.get(), 2);
    assert_eq!(maps[1].id.get(), 1);
    assert_eq!(maps[0].game, Game::CS2);

    let courses: Vec<u16> = maps[0].courses.keys().copied().collect();
    assert_eq!(courses, vec![5, 6]);
    let mappers: Vec<u64> = maps[0].courses[&5].mappers.keys().copied().collect();
    assert_eq!(mappers, vec![10, 11]);
    assert_eq!(maps[0].courses[&5].mappers[&11].name.0, "mapper 11");
    assert_eq!(filter_ids(&maps[0], 5), vec![100, 101]);
    // a course with one row has every filter set from that row
    assert_eq!(filter_ids(&maps[0], 6), vec![102, 102]);
    // the map with one row
    assert_eq!(filter_ids(&maps[1], 3), vec![50, 50]);
    assert_eq!(maps[1].courses[&3].name.as_str(), "course 3");
}

#[test]
fn csgo_rows() {
    let rows = vec![
        row(4, 8, 1, 30, Mode::KZTimer, Tier::Hard),
        row(4, 8, 1, 31, Mode::SimpleKZ, Tier::Hard),
    ];
    let maps = maps_from_rows(rows);
    assert_eq!(maps.len(), 1);
    assert_eq!(filter_ids(&maps[0], 8), vec![30, 31, 30]);
    assert!(maps_from_rows(Vec::new()).is_empty());
}

#[test]
fn runs_of_the_same_map_id_are_separate_maps() {
    let rows = vec![
        row(1, 3, 10, 50, Mode::Classic, Tier::Medium),
        row(2, 4, 10, 60, Mode::Classic, Tier::Medium),
        row(1, 3, 10, 50, Mode::Classic, Tier::Medium),
    ];
    let ids: Vec<u16> = maps_from_rows(rows).iter().map(|m| m.id.get()).collect();
    assert_eq!(ids, vec![1, 2, 1]);
}

fn new_filter(tier: Tier) -> NewFilter {
    NewFilter { nub_tier: tier, pro_tier: tier, ranked: false, notes: FilterNotes::empty() }
}

#[test]
fn filters_are_created_csgo_first() {
    let filters = NewFilters {
        cs2: Some(NewCS2Filters { vnl: new_filter(Tier::Easy), ckz: new_filter(Tier::Hard) }),
        csgo: Some(NewCSGOFilters {
            kzt: new_filter(Tier::Medium),
            skz: new_filter(Tier::Advanced),
            vnl: new_filter(Tier::Death),
        }),
    };
    let order: Vec<(Mode, Tier)> =
        filters_in_creation_order(filters).into_iter().map(|(m, f)| (m, f.nub_tier)).collect();
    assert_eq!(
        order,
        vec![
            (Mode::KZTimer, Tier::Medium),
            (Mode::SimpleKZ, Tier::Advanced),
            (Mode::VanillaCSGO, Tier::Death),
            (Mode::VanillaCS2, Tier::Easy),
            (Mode::Classic, Tier::Hard),
        ]
    );
    let cs2_only = NewFilters {
        cs2: Some(NewCS2Filters { vnl: new_filter(Tier::Easy), ckz: new_filter(Tier::Hard) }),
        csgo: None,
    };
    let modes: Vec<Mode> = filters_in_creation_order(cs2_only).into_iter().map(|(m, _)| m).collect();
    assert_eq!(modes, vec![Mode::VanillaCS2, Mode::Classic]);
    assert!(filters_in_creation_order(NewFilters { cs2: None, csgo: None }).is_empty());
}
