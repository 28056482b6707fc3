use std::str::FromStr;

use timely_greeter_bot::catalog::display_name;
use timely_greeter_bot::catalog::zones;

#[test]
fn override_names_correct_the_irregular_cases() {
    assert_eq!(display_name("America/Curacao"), "Curaçao");
    assert_eq!(display_name("Pacific/Easter"), "Easter Island");
    assert_eq!(display_name("Antarctica/Casey"), "Casey Island");
    assert_eq!(display_name("America/St_Johns"), "St John's");
    assert_eq!(display_name("Antarctica/DumontDUrville"), "Dumont d'Urville");
    assert_eq!(display_name("Australia/Lord_Howe"), "Lord Howe Island");
}

#[test]
fn ordinary_names_take_the_last_segment_with_spaces() {
    assert_eq!(display_name("Europe/Berlin"), "Berlin");
    assert_eq!(display_name("America/New_York"), "New York");
    assert_eq!(display_name("America/Argentina/Buenos_Aires"), "Buenos Aires");
    assert_eq!(display_name("America/Port-au-Prince"), "Port-au-Prince");
    assert_eq!(display_name("UTC"), "UTC");
}

#[test]
fn catalog_is_fixed_and_ordered() {
    let zs = zones();
    assert_eq!(zs.len(), 178);
    assert_eq!(zs[0], "Africa/Accra");
    assert_eq!(zs[zs.len() - 1], "Pacific/Tarawa");
    let tokyo = zs.iter().position(|z| z == "Asia/Tokyo");
    assert!(tokyo.is_some());
    // The catalog order is stable between calls.
    assert_eq!(zones(), zs);
}

#[test]
fn every_catalog_zone_is_known_to_the_zone_database() {
    for z in zones() {
        assert!(
            chrono_tz::Tz::from_str(&z).is_ok(),
            "zone {z} missing from the zone database"
        );
    }
}

#[test]
fn display_names_of_all_zones_are_nonempty() {
    for z in zones() {
        assert!(!display_name(&z).is_empty(), "zone {z} has an empty display name");
    }
}
