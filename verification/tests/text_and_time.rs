use moneo::paths::{due_db_path, log_path, snapshot_path};
use moneo::recur::{recur_freq, recur_label, recur_unit};
use moneo::add::find_duplicate;
use moneo::json::Json;
use moneo::listing::completion_time_text;
use moneo::store::log_line_text;
use moneo::text::{contains_text, pad_to, parse_i64, push_decimal, push_signed, same_text, take_chars};
use moneo::time::{
    fmt_ts, parse_time, relative_would_panic, TimeError,
    MAX_TIMESTAMP, MIN_TIMESTAMP,
};

const NOW: i64 = 1700000000; // 2023-11-15 06:13:20 in Hong Kong, a Wednesday

#[test]
fn decimal_and_signed_text() {
    let mut s = String::new();
    push_decimal(&mut s, 0);
    push_decimal(&mut s, 1234567890);
    assert_eq!(s, "01234567890");
    let mut t = String::new();
    push_signed(&mut t, -42);
    push_signed(&mut t, i64::MIN);
    assert_eq!(t, "-42-9223372036854775808");
}

#[test]
fn padding_and_prefixes() {
    let mut s = String::from("#");
    pad_to(&mut s, 4);
    assert_eq!(s, "#   ");
    let mut long = String::from("abcdef");
    pad_to(&mut long, 3);
    assert_eq!(long, "abcdef");
    assert_eq!(take_chars("héllo wörld", 4), "héll");
    assert_eq!(take_chars("ab", 10), "ab");
}

#[test]
fn substring_search() {
    assert!(contains_text("buy milk", "milk"));
    assert!(contains_text("buy milk", ""));
    assert!(!contains_text("buy milk", "milkshake"));
    assert!(!contains_text("", "a"));
    assert!(same_text("é", "é"));
    assert!(!same_text("ab", "abc"));
}

#[test]
fn lowercase_and_trim_wrappers() {
    let reminder = Json::Object(vec![
        ("n".to_string(), Json::Str("Buy MILK Ä".to_string())),
        ("d".to_string(), Json::Int(NOW)),
    ]);
    let data = Json::Object(vec![("re".to_string(), Json::Array(vec![reminder]))]);
    assert_eq!(find_duplicate(&data, "  \tbuy milk ä \n", NOW), Ok(Some(0)));
    assert_eq!(find_duplicate(&data, "buy milk a", NOW), Ok(None));
}

#[test]
fn integer_parsing_as_std_does() {
    let p = |s: &str| parse_i64(s.as_bytes(), s.len());
    assert_eq!(p("30"), Some(30));
    assert_eq!(p("+7"), Some(7));
    assert_eq!(p("-15"), Some(-15));
    assert_eq!(p("-9223372036854775808"), Some(i64::MIN));
    assert_eq!(p("9223372036854775807"), Some(i64::MAX));
    assert_eq!(p("9223372036854775808"), None);
    assert_eq!(p("-"), None);
    assert_eq!(p(""), None);
    assert_eq!(p("1a"), None);
    assert_eq!(p("99999999999999999999x"), None);
    assert_eq!(parse_i64("30m".as_bytes(), 2), Some(30));
    for s in ["0", "12", "-3", "+4", "007", "x", "1 ", " 1", "--1"] {
        assert_eq!(p(s), s.parse::<i64>().ok(), "{s}");
    }
}

#[test]
fn hong_kong_local_time() {
    assert_eq!(completion_time_text(0), "1970-01-01 08:00");
    assert_eq!(completion_time_text(NOW), "2023-11-15 06:13");
    assert_eq!(log_line_text(59, "x"), "[1970-01-01 08:00:59] x\n");
    assert_eq!(completion_time_text(MAX_TIMESTAMP), "+262143-01-01 07:59");
    assert_eq!(completion_time_text(MIN_TIMESTAMP), "-262143-01-01 07:36");
    assert_eq!(completion_time_text(MAX_TIMESTAMP + 1), "—");
    assert_eq!(completion_time_text(MIN_TIMESTAMP - 1), "—");
    assert_eq!(completion_time_text(-2208988800), "1900-01-01 07:36");
}

#[test]
fn hong_kong_local_resolution() {
    assert_eq!(parse_time(None, Some("09:00"), Some("2024-03-05"), NOW), Ok(Some(1709600400)));
    assert_eq!(parse_time(None, None, Some("2024-02-30"), NOW), Err(TimeError::InvalidDate));
    assert_eq!(parse_time(None, Some("14:30"), Some("2024-03-05"), NOW), Ok(Some(1709620200)));
    assert_eq!(parse_time(None, Some("25:30"), Some("2024-03-05"), NOW), Err(TimeError::InvalidAt));
}

#[test]
fn due_times_are_shown_relative_to_today() {
    assert_eq!(fmt_ts(NOW + 3600, NOW).unwrap(), "today 07:13");
    assert_eq!(fmt_ts(NOW + 86400, NOW).unwrap(), "tomorrow 06:13");
    assert_eq!(fmt_ts(1704067200, NOW).unwrap(), "Jan 01 08:00");
    assert_eq!(fmt_ts(1690000000, NOW).unwrap(), "Jul 22 12:26");
    assert_eq!(fmt_ts(MAX_TIMESTAMP + 1, NOW), None);
}

#[test]
fn relative_times() {
    assert_eq!(parse_time(Some("30m"), None, None, NOW), Ok(Some(NOW + 1800)));
    assert_eq!(parse_time(Some("2h"), Some("09:00"), None, NOW), Ok(Some(NOW + 7200)));
    assert_eq!(parse_time(Some("90s"), None, None, NOW), Ok(Some(NOW + 90)));
    assert_eq!(parse_time(Some("-5m"), None, None, NOW), Ok(Some(NOW - 300)));
    assert_eq!(parse_time(Some("5x"), None, None, NOW), Err(TimeError::InvalidIn));
    assert_eq!(parse_time(Some("m"), None, None, NOW), Err(TimeError::InvalidIn));
    assert_eq!(parse_time(Some("abm"), None, None, NOW), Err(TimeError::InvalidIn));
}

#[test]
fn relative_times_that_panic() {
    assert!(relative_would_panic("5é", NOW));
    assert!(relative_would_panic("9999999999999999h", NOW));
    assert!(relative_would_panic("9223372036854776s", NOW));
    assert!(relative_would_panic("9223372036854775s", 0));
    assert!(!relative_would_panic("8000000000000s", 0));
    assert!(!relative_would_panic("30m", NOW));
    assert!(relative_would_panic("é", NOW));
    assert!(!relative_would_panic("e", NOW));
    assert!(!relative_would_panic("zz", NOW));
}

#[test]
fn clock_and_date_options() {
    assert_eq!(parse_time(None, None, Some("2024-03-05"), NOW), Ok(Some(1709600400)));
    assert_eq!(parse_time(None, Some("14:30"), Some("2024-03-05"), NOW), Ok(Some(1709620200)));
    assert_eq!(parse_time(None, Some("7:05"), None, NOW), Ok(Some(1700003100)));
    assert_eq!(parse_time(None, None, None, NOW), Ok(None));
    assert_eq!(parse_time(None, None, Some("2024-13-01"), NOW), Err(TimeError::InvalidDate));
    assert_eq!(parse_time(None, Some("25:00"), None, NOW), Err(TimeError::InvalidAt));
    assert_eq!(parse_time(None, Some("noon"), Some("2024-03-05"), NOW), Err(TimeError::InvalidAt));
}

#[test]
fn recurrence_tables() {
    assert_eq!(recur_label(Some("d")).as_deref(), Some("daily"));
    assert_eq!(recur_label(Some("w")).as_deref(), Some("weekly"));
    assert_eq!(recur_label(Some("m")).as_deref(), Some("monthly"));
    assert_eq!(recur_label(Some("q")).as_deref(), Some("quarterly"));
    assert_eq!(recur_label(Some("y")).as_deref(), Some("yearly"));
    assert_eq!(recur_label(Some("x")), None);
    assert_eq!(recur_label(None), None);
    assert_eq!(recur_unit("daily"), Some(16));
    assert_eq!(recur_unit("weekly"), Some(256));
    assert_eq!(recur_unit("monthly"), Some(8));
    assert_eq!(recur_unit("quarterly"), Some(8));
    assert_eq!(recur_unit("yearly"), Some(4));
    assert_eq!(recur_unit("hourly"), None);
    assert_eq!(recur_freq("quarterly"), Some(3));
    assert_eq!(recur_freq("daily"), Some(1));
    assert_eq!(recur_freq("yearly"), Some(1));
    assert_eq!(recur_freq("hourly"), None);
}

#[test]
fn every_label_has_unit_and_freq() {
    for code in ["d", "w", "m", "q", "y"] {
        let label = recur_label(Some(code)).unwrap();
        assert!(recur_unit(&label).is_some() && recur_freq(&label).is_some());
    }
    for name in ["daily", "weekly", "monthly", "quarterly", "yearly", "hourly", ""] {
        assert_eq!(recur_unit(name).is_some(), recur_freq(name).is_some());
    }
}

#[test]
fn file_locations() {
    assert_eq!(
        due_db_path("/Users/ann"),
        "/Users/ann/Library/Containers/com.phocusllp.duemac/Data/Library/Application Support/Due App/Due.duedb"
    );
    assert_eq!(snapshot_path("/Users/ann/"), "/Users/ann/officina/backups/due-reminders.json");
    assert_eq!(log_path(""), "tmp/due-snapshot.log");
    let joined = std::path::PathBuf::from("/home/x").join("tmp/due-snapshot.log");
    assert_eq!(log_path("/home/x"), joined.to_str().unwrap());
}
