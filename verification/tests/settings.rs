use linkly::config::{numeral, parse_unsigned, strip_slashes, AppConfig, ConfigError, EnvVars};
use linkly::text::{chars_of, contains_chars, string_of, trim_chars};

fn vars(password: Option<&str>) -> EnvVars {
    EnvVars {
        admin_password: password.map(str::to_string),
        port: None,
        session_duration_hours: None,
        base_url: None,
        root_redirect_url: None,
        database_url: None,
        host: None,
    }
}

fn number(s: &str, max: u64) -> Option<u64> {
    parse_unsigned(&chars_of(s), max)
}

#[test]
fn defaults_are_used_for_unset_variables() {
    let c = AppConfig::from_vars(&vars(Some("hunter2"))).unwrap();
    assert_eq!(c.admin_password, "hunter2");
    assert_eq!(c.port, 3000);
    assert_eq!(c.session_duration_hours, 24);
    assert_eq!(c.base_url, "http://localhost:3000");
    assert_eq!(c.root_redirect_url, "https://secedastudios.com");
    assert_eq!(c.database_url, "sqlite:./linkly.db");
    assert_eq!(c.host, "0.0.0.0");
}

#[test]
fn set_variables_are_used() {
    let v = EnvVars {
        admin_password: Some(" pw ".to_string()),
        port: Some("8080".to_string()),
        session_duration_hours: Some("2".to_string()),
        base_url: Some("https://go.example.com///".to_string()),
        root_redirect_url: Some("https://example.com/".to_string()),
        database_url: Some("sqlite::memory:".to_string()),
        host: Some("127.0.0.1".to_string()),
    };
    let c = AppConfig::from_vars(&v).unwrap();
    assert_eq!(c.admin_password, " pw ");
    assert_eq!(c.port, 8080);
    assert_eq!(c.session_duration_hours, 2);
    assert_eq!(c.base_url, "https://go.example.com");
    assert_eq!(c.root_redirect_url, "https://example.com");
    assert_eq!(c.database_url, "sqlite::memory:");
    assert_eq!(c.host, "127.0.0.1");
}

#[test]
fn default_base_url_follows_the_port() {
    let mut v = vars(Some("pw"));
    v.port = Some("+0443".to_string());
    let c = AppConfig::from_vars(&v).unwrap();
    assert_eq!(c.port, 443);
    assert_eq!(c.base_url, "http://localhost:443");
    v.port = Some("0".to_string());
    assert_eq!(AppConfig::from_vars(&v).unwrap().base_url, "http://localhost:0");
    v.port = Some("65535".to_string());
    assert_eq!(AppConfig::from_vars(&v).unwrap().base_url, "http://localhost:65535");
}

#[test]
fn missing_password_is_refused() {
    assert_eq!(AppConfig::from_vars(&vars(None)).unwrap_err(), ConfigError::MissingPassword);
}

#[test]
fn blank_password_is_refused() {
    assert_eq!(AppConfig::from_vars(&vars(Some(""))).unwrap_err(), ConfigError::EmptyPassword);
    assert_eq!(AppConfig::from_vars(&vars(Some(" \t\n"))).unwrap_err(), ConfigError::EmptyPassword);
}

#[test]
fn bad_port_is_refused() {
    for port in ["", "65536", "-1", "80a", " 80", "+", "http", "99999999999999999999999"] {
        let mut v = vars(Some("pw"));
        v.port = Some(port.to_string());
        assert_eq!(AppConfig::from_vars(&v).unwrap_err(), ConfigError::BadPort, "{:?}", port);
    }
}

#[test]
fn password_is_looked_at_before_the_port() {
    let mut v = vars(None);
    v.port = Some("nope".to_string());
    assert_eq!(AppConfig::from_vars(&v).unwrap_err(), ConfigError::MissingPassword);
}

#[test]
fn bad_duration_falls_back_to_a_day() {
    for hours in ["", "soon", "-3", "1.5", "18446744073709551616"] {
        let mut v = vars(Some("pw"));
        v.session_duration_hours = Some(hours.to_string());
        assert_eq!(AppConfig::from_vars(&v).unwrap().session_duration_hours, 24, "{:?}", hours);
    }
    let mut v = vars(Some("pw"));
    v.session_duration_hours = Some("18446744073709551615".to_string());
    assert_eq!(AppConfig::from_vars(&v).unwrap().session_duration_hours, u64::MAX);
}

#[test]
fn numerals_are_read() {
    assert_eq!(number("0", 10), Some(0));
    assert_eq!(number("10", 10), Some(10));
    assert_eq!(number("11", 10), None);
    assert_eq!(number("+7", 10), Some(7));
    assert_eq!(number("0000000000000000000000007", 10), Some(7));
    assert_eq!(number("++7", 10), None);
    assert_eq!(number("7+", 10), None);
    assert_eq!(number("", 10), None);
    assert_eq!(number("18446744073709551615", u64::MAX), Some(u64::MAX));
    assert_eq!(number("18446744073709551616", u64::MAX), None);
    assert_eq!(number("٣", 10), None);
}

#[test]
fn numerals_are_written() {
    let text = |n: u64| string_of(&numeral(n));
    assert_eq!(text(0), "0");
    assert_eq!(text(7), "7");
    assert_eq!(text(10), "10");
    assert_eq!(text(3000), "3000");
    assert_eq!(text(65535), "65535");
    assert_eq!(text(u64::MAX), "18446744073709551615");
}

#[test]
fn slashes_at_the_end_are_taken_off() {
    let text = |s: &str| string_of(&strip_slashes(&chars_of(s)));
    assert_eq!(text("https://example.com/"), "https://example.com");
    assert_eq!(text("https://example.com//"), "https://example.com");
    assert_eq!(text("https://example.com/a"), "https://example.com/a");
    assert_eq!(text("///"), "");
    assert_eq!(text(""), "");
}

#[test]
fn white_space_is_trimmed_at_both_ends() {
    let text = |s: &str| string_of(&trim_chars(&chars_of(s)));
    assert_eq!(text("  a b  "), "a b");
    assert_eq!(text("\u{a0}\u{2003}x\u{2028}\u{85}"), "x");
    assert_eq!(text("\u{200b}x"), "\u{200b}x");
    assert_eq!(text(" \t\r\n"), "");
    assert_eq!(text(""), "");
    for s in ["  a b  ", "\u{1680}q\u{205f}", "\u{b}\u{c}z\u{202f}\u{3000}", "\u{180e}w", "\u{feff}w "] {
        assert_eq!(text(s), s.trim(), "{:?}", s);
    }
}

#[test]
fn a_part_is_found_anywhere() {
    let has = |hay: &str, needle: &str| contains_chars(&chars_of(hay), &chars_of(needle));
    assert!(has("UNIQUE constraint failed", "UNIQUE"));
    assert!(has("error: UNIQUE", "UNIQUE"));
    assert!(has("xUNIQUEx", "UNIQUE"));
    assert!(has("abc", ""));
    assert!(has("", ""));
    assert!(!has("unique", "UNIQUE"));
    assert!(!has("UNIQU", "UNIQUE"));
    assert!(!has("", "UNIQUE"));
}

#[test]
fn strings_and_characters_convert_both_ways() {
    for s in ["", "abc", "h\u{e9}llo \u{1f600}"] {
        let v = chars_of(s);
        assert_eq!(v, s.chars().collect::<Vec<char>>());
        assert_eq!(string_of(&v), s);
    }
}
