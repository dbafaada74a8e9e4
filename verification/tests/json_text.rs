use config_hub::config::Config;
use config_hub::websocket::GenericWsMessage;

fn config_with(color: &str, size: u8, speed: u8, balls: u8) -> Config {
    Config {
        ball_color: String::from(color),
        ball_size: size,
        ball_speed: speed,
        number_of_balls: balls,
    }
}

#[test]
fn config_json_has_exact_compact_form() {
    let c = config_with("green", 20, 3, 10);
    assert_eq!(
        c.to_json(),
        "{\"ball_color\":\"green\",\"ball_size\":20,\"ball_speed\":3,\"number_of_balls\":10}"
    );
}

#[test]
fn decimal_fields_cover_one_two_and_three_digits() {
    let c = config_with("red", 0, 99, 255);
    assert_eq!(
        c.to_json(),
        "{\"ball_color\":\"red\",\"ball_size\":0,\"ball_speed\":99,\"number_of_balls\":255}"
    );
    let c = config_with("blue", 10, 100, 101);
    assert_eq!(
        c.to_json(),
        "{\"ball_color\":\"blue\",\"ball_size\":10,\"ball_speed\":100,\"number_of_balls\":101}"
    );
}

#[test]
fn quotes_backslashes_and_control_characters_are_escaped() {
    let c = config_with("a\"b\\c\nd\te\u{1}f", 1, 2, 3);
    assert_eq!(
        c.to_json(),
        "{\"ball_color\":\"a\\\"b\\\\c\\nd\\te\\u0001f\",\"ball_size\":1,\"ball_speed\":2,\"number_of_balls\":3}"
    );
    let c = config_with("\r\u{8}\u{c}\u{1f}", 1, 2, 3);
    assert_eq!(
        c.to_json(),
        "{\"ball_color\":\"\\r\\b\\f\\u001f\",\"ball_size\":1,\"ball_speed\":2,\"number_of_balls\":3}"
    );
}

#[test]
fn config_json_matches_what_a_json_parser_reads_back() {
    let c = config_with("we\u{fc}rd \"col\\or\"\n", 42, 7, 200);
    let text = c.to_json();
    let v: serde_json::Value = serde_json::from_str(&text).expect("output must be valid JSON");
    assert_eq!(v["ball_color"].as_str().unwrap(), "we\u{fc}rd \"col\\or\"\n");
    assert_eq!(v["ball_size"].as_u64().unwrap(), 42);
    assert_eq!(v["ball_speed"].as_u64().unwrap(), 7);
    assert_eq!(v["number_of_balls"].as_u64().unwrap(), 200);
}

#[test]
fn message_text_wraps_the_config_in_a_config_field() {
    let msg = GenericWsMessage { config: config_with("green", 20, 3, 10) };
    assert_eq!(
        msg.as_text(),
        "{\"config\":{\"ball_color\":\"green\",\"ball_size\":20,\"ball_speed\":3,\"number_of_balls\":10}}"
    );
    let v: serde_json::Value = serde_json::from_str(&msg.as_text()).unwrap();
    assert_eq!(v["config"]["ball_size"].as_u64().unwrap(), 20);
}

#[test]
fn config_equality_compares_all_fields() {
    assert_eq!(config_with("green", 1, 2, 3), config_with("green", 1, 2, 3));
    assert_ne!(config_with("green", 1, 2, 3), config_with("red", 1, 2, 3));
    assert_ne!(config_with("green", 1, 2, 3), config_with("green", 9, 2, 3));
    let c = config_with("green", 1, 2, 3);
    assert_eq!(c.clone(), c);
}
