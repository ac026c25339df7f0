use robo_arc::basic_functions::capitalize_first;
use robo_arc::basic_functions::pacman;
use robo_arc::basic_functions::paste_response_url;
use robo_arc::basic_functions::seconds_to_days;
use robo_arc::basic_functions::string_to_seconds;
use robo_arc::basic_functions::PasteData;

#[test]
fn capitalize_first_ascii() {
    assert_eq!(capitalize_first("hello"), "Hello");
    assert_eq!(capitalize_first("hello world"), "Hello world");
    assert_eq!(capitalize_first("Already"), "Already");
}

#[test]
fn capitalize_first_empty() {
    assert_eq!(capitalize_first(""), "");
}

#[test]
fn capitalize_first_unicode() {
    assert_eq!(capitalize_first("über"), "Über");
}

#[test]
fn pacman_half() {
    let expected = format!("{}C {}", ". ".repeat(10), "o ".repeat(10));
    assert_eq!(pacman("0.5"), expected);
}

#[test]
fn pacman_start_and_end() {
    assert_eq!(pacman("0.0"), format!("C {}", "o ".repeat(20)));
    let expected = format!("{}C {}", ". ".repeat(19), "o ".repeat(1));
    assert_eq!(pacman("0.999"), expected);
}

#[test]
fn seconds_to_days_no_days() {
    assert_eq!(seconds_to_days(0), "0:00:00");
    assert_eq!(seconds_to_days(3661), "1:01:01");
    assert_eq!(seconds_to_days(59), "0:00:59");
}

#[test]
fn seconds_to_days_with_days() {
    assert_eq!(seconds_to_days(90061), "1D 1:01:01");
    assert_eq!(seconds_to_days(86400), "1D 0:00:00");
}

#[test]
fn string_to_seconds_units() {
    assert_eq!(string_to_seconds("1h 30m"), 5400);
    assert_eq!(string_to_seconds("2D"), 172800);
    assert_eq!(string_to_seconds("1W 1M 1Y"), 34732800);
    assert_eq!(string_to_seconds("10s"), 10);
}

#[test]
fn string_to_seconds_ignores_junk() {
    assert_eq!(string_to_seconds("abc"), 0);
    assert_eq!(string_to_seconds(""), 0);
    assert_eq!(string_to_seconds("10s 5x"), 10);
    assert_eq!(string_to_seconds("s"), 0);
}

#[test]
fn string_to_seconds_unparsable_number_is_zero() {
    assert_eq!(string_to_seconds("99999999999999999999999s 3s"), 3);
    assert_eq!(string_to_seconds("+5s"), 5);
}

#[test]
fn capitalize_first_multi_char_uppercase() {
    assert_eq!(capitalize_first("ßtest"), "SStest");
}

#[test]
fn paste_data_form() {
    let d = PasteData::new("fn main() {}".to_string());
    assert_eq!(d.code, "fn main() {}");
    assert_eq!(d.upload, "paste");
    assert_eq!(d.extension, "");
}

#[test]
fn paste_url_by_status() {
    assert_eq!(
        paste_response_url(200, "https://paste.example/x".to_string()),
        "https://paste.example/x"
    );
    assert_eq!(paste_response_url(404, "https://paste.example/x".to_string()), "");
}
