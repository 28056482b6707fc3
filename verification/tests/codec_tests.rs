use timely_greeter_bot::codec::format_chat_ids;
use timely_greeter_bot::codec::parse_chat_ids;
use timely_greeter_bot::codec::parse_update_id;
use timely_greeter_bot::config::extract_bot_token;
use timely_greeter_bot::decimal::i64_to_string;
use timely_greeter_bot::decimal::parse_i64;

#[test]
fn chat_ids_round_trip() {
    let ids = vec![1, -2, 30, i64::MAX, i64::MIN, 0];
    let text = format_chat_ids(&ids);
    assert_eq!(parse_chat_ids(&text), ids);
}

#[test]
fn chat_ids_format_is_crlf_joined() {
    assert_eq!(format_chat_ids(&vec![1, -2, 3]), "1\r\n-2\r\n3");
    assert_eq!(format_chat_ids(&vec![]), "");
    assert_eq!(format_chat_ids(&vec![42]), "42");
}

#[test]
fn chat_ids_accept_bare_newlines() {
    assert_eq!(parse_chat_ids("1\n2\n3"), vec![1, 2, 3]);
    assert_eq!(parse_chat_ids("1\r\n2\r\n3"), vec![1, 2, 3]);
}

#[test]
fn any_malformed_line_empties_the_list() {
    assert_eq!(parse_chat_ids("1\r\ntwo\r\n3"), Vec::<i64>::new());
    assert_eq!(parse_chat_ids("1\r\n\r\n3"), Vec::<i64>::new());
    assert_eq!(parse_chat_ids("9999999999999999999999"), Vec::<i64>::new());
}

#[test]
fn empty_store_is_an_empty_list() {
    assert_eq!(parse_chat_ids(""), Vec::<i64>::new());
}

#[test]
fn update_id_parses_or_defaults_to_zero() {
    assert_eq!(parse_update_id("42"), 42);
    assert_eq!(parse_update_id("-5"), -5);
    assert_eq!(parse_update_id(""), 0);
    assert_eq!(parse_update_id("abc"), 0);
    assert_eq!(parse_update_id("42\n"), 0);
    assert_eq!(parse_update_id("9223372036854775808"), 0);
}

#[test]
fn update_id_round_trip() {
    for v in [0i64, 7, -7, i64::MAX, i64::MIN] {
        assert_eq!(parse_update_id(&i64_to_string(v)), v);
    }
}

#[test]
fn decimal_text_of_extremes() {
    assert_eq!(i64_to_string(i64::MIN), "-9223372036854775808");
    assert_eq!(i64_to_string(i64::MAX), "9223372036854775807");
    assert_eq!(i64_to_string(0), "0");
    assert_eq!(i64_to_string(-1), "-1");
}

#[test]
fn parse_rejects_what_is_not_a_plain_decimal() {
    for bad in ["", "-", "+5", "1.5", " 1", "1 ", "--3", "12a"] {
        let chars: Vec<char> = bad.chars().collect();
        assert_eq!(parse_i64(&chars), None, "{bad:?} should not parse");
    }
    let min: Vec<char> = "-9223372036854775808".chars().collect();
    assert_eq!(parse_i64(&min), Some(i64::MIN));
    let under_min: Vec<char> = "-9223372036854775809".chars().collect();
    assert_eq!(parse_i64(&under_min), None);
    let max: Vec<char> = "9223372036854775807".chars().collect();
    assert_eq!(parse_i64(&max), Some(i64::MAX));
    let over_max: Vec<char> = "9223372036854775808".chars().collect();
    assert_eq!(parse_i64(&over_max), None);
    let zero: Vec<char> = "-0".chars().collect();
    assert_eq!(parse_i64(&zero), Some(0));
}

#[test]
fn token_line_yields_its_suffix() {
    assert_eq!(
        extract_bot_token("TELEGRAM_BOT_TOKEN=abc123\n"),
        Some(String::from("abc123"))
    );
    assert_eq!(
        extract_bot_token("OTHER=1\nTELEGRAM_BOT_TOKEN=abc"),
        Some(String::from("abc"))
    );
    assert_eq!(extract_bot_token("TELEGRAM_BOT_TOKEN="), Some(String::from("")));
    assert_eq!(extract_bot_token("OTHER=1\n"), None);
    assert_eq!(extract_bot_token(""), None);
}
