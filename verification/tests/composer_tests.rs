use timely_greeter_bot::composer::get_good_morning_message;

#[test]
fn no_cities_no_message() {
    assert_eq!(get_good_morning_message(&vec![]), None);
}

#[test]
fn one_city() {
    let cities = vec![String::from("Tokyo")];
    assert_eq!(
        get_good_morning_message(&cities),
        Some(String::from("Good morning to Tokyo!"))
    );
}

#[test]
fn two_cities() {
    let cities = vec![String::from("Tokyo"), String::from("Paris")];
    assert_eq!(
        get_good_morning_message(&cities),
        Some(String::from("Good morning to Tokyo, and Paris!"))
    );
}

#[test]
fn three_cities() {
    let cities = vec![
        String::from("Tokyo"),
        String::from("Paris"),
        String::from("Lima"),
    ];
    assert_eq!(
        get_good_morning_message(&cities),
        Some(String::from("Good morning to Tokyo, Paris, and Lima!"))
    );
}

#[test]
fn five_cities_join_all_but_last_with_commas() {
    let cities = vec![
        String::from("A"),
        String::from("B"),
        String::from("C"),
        String::from("D"),
        String::from("E"),
    ];
    assert_eq!(
        get_good_morning_message(&cities),
        Some(String::from("Good morning to A, B, C, D, and E!"))
    );
}
