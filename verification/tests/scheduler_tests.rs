use timely_greeter_bot::catalog::zones;
use timely_greeter_bot::scheduler::LocalTime;
use timely_greeter_bot::scheduler::TimezoneGreeter;

fn at(year: i32, month: u8, day: u8, hour: u8, minute: u8) -> LocalTime {
    LocalTime { year, month, day, hour, minute }
}

fn zone_index(name: &str) -> usize {
    zones().iter().position(|z| z == name).expect("zone in catalog")
}

fn readings_for(entries: &[(usize, LocalTime)]) -> Vec<Option<LocalTime>> {
    let mut v: Vec<Option<LocalTime>> = vec![None; zones().len()];
    for (i, t) in entries {
        v[*i] = Some(*t);
    }
    v
}

#[test]
fn due_zone_greeted_once_per_local_day() {
    let tokyo = zone_index("Asia/Tokyo");
    let mut greeter = TimezoneGreeter::new();

    let first = greeter.tick_at(&readings_for(&[(tokyo, at(2024, 5, 1, 9, 3))]));
    assert_eq!(first, vec![String::from("Tokyo")]);

    let second = greeter.tick_at(&readings_for(&[(tokyo, at(2024, 5, 1, 9, 4))]));
    assert_eq!(second, Vec::<String>::new());

    let next_day = greeter.tick_at(&readings_for(&[(tokyo, at(2024, 5, 2, 9, 2))]));
    assert_eq!(next_day, vec![String::from("Tokyo")]);
}

#[test]
fn outside_window_nothing_fires() {
    let tokyo = zone_index("Asia/Tokyo");
    let mut greeter = TimezoneGreeter::new();
    assert!(greeter.tick_at(&readings_for(&[(tokyo, at(2024, 5, 1, 8, 59))])).is_empty());
    assert!(greeter.tick_at(&readings_for(&[(tokyo, at(2024, 5, 1, 9, 5))])).is_empty());
    assert!(greeter.tick_at(&readings_for(&[(tokyo, at(2024, 5, 1, 10, 0))])).is_empty());
}

#[test]
fn due_names_come_in_catalog_order() {
    let berlin = zone_index("Europe/Berlin");
    let tokyo = zone_index("Asia/Tokyo");
    assert!(tokyo < berlin);
    let mut greeter = TimezoneGreeter::new();
    let due = greeter.tick_at(&readings_for(&[
        (berlin, at(2024, 5, 1, 9, 0)),
        (tokyo, at(2024, 5, 1, 9, 0)),
    ]));
    assert_eq!(due, vec![String::from("Tokyo"), String::from("Berlin")]);
}

#[test]
fn restart_causes_at_most_one_extra_greeting_per_zone() {
    let tokyo = zone_index("Asia/Tokyo");
    let mut greeter = TimezoneGreeter::new();
    let now = readings_for(&[(tokyo, at(2024, 5, 1, 9, 1))]);
    assert_eq!(greeter.tick_at(&now).len(), 1);

    // The ledger is not persisted: a fresh scheduler fires once more on
    // the same local day, and after that fire stays quiet for the day.
    let mut restarted = TimezoneGreeter::new();
    let again = readings_for(&[(tokyo, at(2024, 5, 1, 9, 2))]);
    assert_eq!(restarted.tick_at(&again).len(), 1);
    let later = readings_for(&[(tokyo, at(2024, 5, 1, 9, 3))]);
    assert_eq!(restarted.tick_at(&later).len(), 0);
}

#[test]
fn day_of_month_alone_does_not_hide_a_new_day() {
    let tokyo = zone_index("Asia/Tokyo");
    let mut greeter = TimezoneGreeter::new();
    assert_eq!(greeter.tick_at(&readings_for(&[(tokyo, at(2024, 5, 1, 9, 0))])).len(), 1);
    // Same day-of-month one month later is a different calendar day.
    assert_eq!(greeter.tick_at(&readings_for(&[(tokyo, at(2024, 6, 1, 9, 0))])).len(), 1);
}

#[test]
fn missing_readings_leave_zones_untouched() {
    let mut greeter = TimezoneGreeter::new();
    let nothing: Vec<Option<LocalTime>> = vec![None; zones().len()];
    assert!(greeter.tick_at(&nothing).is_empty());
}

#[test]
fn live_clock_ticks_never_double_fire_within_a_minute() {
    let mut greeter = TimezoneGreeter::new();
    let first = greeter.get_cities_to_greet();
    assert!(first.len() <= zones().len());
    let second = greeter.get_cities_to_greet();
    for name in &second {
        assert!(!first.contains(name));
    }
}
