use cs2kz_api::kz::name_or_id::NameOrID;
use cs2kz_api::maps::models::{CourseID, MapID};
use cs2kz_api::maps::{
    CourseDescription, CourseId, CourseName, FilterNotes, InvalidCourseName, InvalidMapName,
    MapDescription, MapId, MapName,
};
use cs2kz_api::players::{InvalidPlayerName, PlayerName};
use cs2kz_api::servers::ServerID;
use cs2kz_api::text::{parse_nonzero_u16, parse_u16, parse_u32, u16_to_string};

#[test]
fn map_name_accepts_kz_names() {
    let name = MapName::parse("kz_grotto").unwrap();
    assert_eq!(name.as_str(), "kz_grotto");
    assert!(MapName::validate("kz_a").is_ok());
    assert!(MapName::validate("kz_Under_Score").is_ok());
    // exactly 27 characters
    assert!(MapName::validate("kz_abcdefghijklmnopqrstuvwx").is_ok());
}

#[test]
fn map_name_errors() {
    assert_eq!(MapName::validate("grotto").unwrap_err(), InvalidMapName::MissingPrefix);
    assert_eq!(MapName::validate("").unwrap_err(), InvalidMapName::MissingPrefix);
    assert_eq!(MapName::validate("kz_").unwrap_err(), InvalidMapName::InvalidLength);
    assert_eq!(
        MapName::validate("kz_abcdefghijklmnopqrstuvwxy").unwrap_err(),
        InvalidMapName::InvalidLength
    );
    assert_eq!(
        MapName::validate("kz_grotto2").unwrap_err(),
        InvalidMapName::InvalidCharacter('2')
    );
    assert_eq!(
        MapName::validate("kz_gro-tto").unwrap_err(),
        InvalidMapName::InvalidCharacter('-')
    );
    assert_eq!(MapName::parse("kz grotto").unwrap_err(), InvalidMapName::MissingPrefix);
}

#[test]
fn course_name_rules() {
    assert_eq!(CourseName::parse("Main").unwrap().as_str(), "Main");
    assert_eq!(CourseName::validate("").unwrap_err(), InvalidCourseName::Empty);
    assert_eq!(CourseName::validate("123").unwrap_err(), InvalidCourseName::Integer);
    assert_eq!(CourseName::validate("+5").unwrap_err(), InvalidCourseName::Integer);
    // any integer is refused, whatever its size or sign
    assert_eq!(CourseName::validate("70000").unwrap_err(), InvalidCourseName::Integer);
    assert_eq!(CourseName::validate("-1").unwrap_err(), InvalidCourseName::Integer);
    assert_eq!(CourseName::validate("00").unwrap_err(), InvalidCourseName::Integer);
    assert!(CourseName::validate("-").is_ok());
    assert!(CourseName::validate("+").is_ok());
    assert!(CourseName::validate("12a").is_ok());
    assert!(CourseName::validate("1 2").is_ok());
    assert!(CourseName::validate("Bonus 1").is_ok());
}

#[test]
fn player_name_rules() {
    assert_eq!(PlayerName::parse("AlphaKeks").unwrap().as_str(), "AlphaKeks");
    assert_eq!(PlayerName::validate("").unwrap_err(), InvalidPlayerName::Empty);
    assert!(PlayerName::validate(" ").is_ok());
}

#[test]
fn free_texts_accept_anything() {
    assert_eq!(MapDescription::parse("a map").unwrap().as_str(), "a map");
    assert_eq!(MapDescription::empty().as_str(), "");
    assert_eq!(CourseDescription::parse("").unwrap().as_str(), "");
    assert_eq!(FilterNotes::parse("no jumpbugs").unwrap().as_str(), "no jumpbugs");
    let notes = FilterNotes::parse("x").unwrap();
    assert_eq!(notes.duplicate().as_str(), "x");
}

#[test]
fn ids_parse_nonzero_integers() {
    assert_eq!(MapId::parse("7").unwrap().get(), 7);
    assert_eq!(MapId::parse("+7").unwrap().get(), 7);
    assert_eq!(MapId::parse("65535").unwrap().get(), 65535);
    assert!(MapId::parse("0").is_err());
    assert!(MapId::parse("65536").is_err());
    assert!(MapId::parse("-1").is_err());
    assert!(MapId::parse("").is_err());
    assert!(MapId::parse("kz_grotto").is_err());
    assert_eq!(CourseId::parse("42").unwrap().get(), 42);
    assert!(CourseId::parse("0").is_err());
    assert!(MapId::new(0).is_none());
    assert_eq!(MapId::new(3).unwrap().get(), 3);
    assert!(CourseId::new(0).is_none());
}

#[test]
fn number_text_conversions() {
    assert_eq!(parse_u16("123"), Some(123));
    assert_eq!(parse_u16("+1"), Some(1));
    assert_eq!(parse_u16("65536"), None);
    assert_eq!(parse_u16(" 1"), None);
    assert_eq!(parse_u32("4294967295"), Some(4294967295));
    assert_eq!(parse_u32("4294967296"), None);
    assert_eq!(parse_nonzero_u16("9").unwrap(), 9);
    assert!(parse_nonzero_u16("0").is_err());
    assert_eq!(u16_to_string(0), "0");
    assert_eq!(u16_to_string(1234), "1234");
}

#[test]
fn name_or_id_parsing() {
    assert_eq!(NameOrID::<MapID>::parse("12"), NameOrID::ID(MapID(12)));
    assert_eq!(
        NameOrID::<MapID>::parse("kz_grotto"),
        NameOrID::Name(String::from("kz_grotto"))
    );
    assert_eq!(NameOrID::<CourseID>::parse("+3"), NameOrID::ID(CourseID(3)));
    assert_eq!(
        NameOrID::<ServerID>::parse("99999"),
        NameOrID::Name(String::from("99999"))
    );
}

#[test]
fn name_or_id_text_round_trips() {
    let id = NameOrID::<MapID>::ID(MapID(65535));
    assert_eq!(id.to_text(), "65535");
    assert_eq!(NameOrID::<MapID>::parse(&id.to_text()), id);
    let name = NameOrID::<ServerID>::Name(String::from("Alpha's KZ"));
    assert_eq!(name.to_text(), "Alpha's KZ");
    assert_eq!(NameOrID::<ServerID>::parse(&name.to_text()), name);
    let course = NameOrID::<CourseID>::ID(CourseID(0));
    assert_eq!(NameOrID::<CourseID>::parse(&course.to_text()), course);
}
