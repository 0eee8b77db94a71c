use chrono::NaiveDateTime;
use linkly::admin::{
    after_create, after_delete, before_delete, breakdown, code_is_free, count_field,
    propose_code, random_code, with_pct, ClickField, CreateLinkForm, CreateOutcome,
    DeleteOutcome, Flash, FormError, LoginForm, BREAKDOWN_ROWS,
};
use linkly::cache::LinkCache;
use linkly::models::{Click, Link};
use linkly::redirect::StorageLookup;

fn link(code: &str, url: &str) -> Link {
    Link {
        id: 1,
        short_code: code.to_string(),
        original_url: url.to_string(),
        title: None,
        description: None,
        created_at: NaiveDateTime::default(),
        is_active: true,
    }
}

fn column(values: &[Option<&str>]) -> Vec<Option<String>> {
    values.iter().map(|v| v.map(str::to_string)).collect()
}

fn form(url: &str, code: Option<&str>) -> CreateLinkForm {
    CreateLinkForm {
        url: url.to_string(),
        title: None,
        description: None,
        custom_code: code.map(str::to_string),
    }
}

#[test]
fn values_are_counted_and_ordered_by_count() {
    let values = column(&[
        Some("Firefox"), Some("Chrome"), None, Some("Chrome"), Some(""), Some("Safari"),
        Some("Chrome"), Some("Firefox"),
    ]);
    assert_eq!(
        count_field(&values),
        vec![("Chrome".to_string(), 3), ("Firefox".to_string(), 2), ("Safari".to_string(), 1)]
    );
}

#[test]
fn nothing_to_count_gives_no_rows() {
    assert_eq!(count_field(&Vec::new()), Vec::new());
    assert_eq!(count_field(&column(&[None, Some(""), None])), Vec::new());
}

#[test]
fn only_the_ten_most_frequent_are_kept() {
    let names = ["a", "b", "c", "d", "e", "f", "g", "h", "i", "j", "k", "l"];
    let mut values: Vec<Option<String>> = Vec::new();
    for (i, name) in names.iter().enumerate() {
        for _ in 0..(i + 1) {
            values.push(Some(name.to_string()));
        }
    }
    let rows = count_field(&values);
    assert_eq!(rows.len(), BREAKDOWN_ROWS);
    assert_eq!(rows.len(), 10);
    assert_eq!(rows[0], ("l".to_string(), 12));
    assert_eq!(rows[9], ("c".to_string(), 3));
    for w in rows.windows(2) {
        assert!(w[0].1 > w[1].1);
    }
}

#[test]
fn ties_keep_every_value_once() {
    let rows = count_field(&column(&[Some("x"), Some("y"), Some("x"), Some("y"), Some("z")]));
    assert_eq!(rows.len(), 3);
    assert_eq!(rows[0].1, 2);
    assert_eq!(rows[1].1, 2);
    assert_eq!(rows[2], ("z".to_string(), 1));
    let mut first_two = vec![rows[0].0.clone(), rows[1].0.clone()];
    first_two.sort();
    assert_eq!(first_two, vec!["x".to_string(), "y".to_string()]);
}

#[test]
fn percent_is_rounded_towards_zero() {
    let rows = with_pct(
        vec![("a".to_string(), 3), ("b".to_string(), 7), ("c".to_string(), 0), ("d".to_string(), 1)],
        7,
    );
    assert_eq!(
        rows,
        vec![
            ("a".to_string(), 3, 42),
            ("b".to_string(), 7, 100),
            ("c".to_string(), 0, 0),
            ("d".to_string(), 1, 14),
        ]
    );
}

#[test]
fn percent_of_no_total_is_zero() {
    assert_eq!(with_pct(vec![("a".to_string(), 3)], 0), vec![("a".to_string(), 3, 0)]);
    assert_eq!(with_pct(vec![("a".to_string(), 3)], -5), vec![("a".to_string(), 3, 0)]);
    assert_eq!(with_pct(Vec::new(), 10), Vec::new());
}

#[test]
fn percent_may_exceed_a_hundred_or_be_negative() {
    assert_eq!(with_pct(vec![("a".to_string(), 5)], 2), vec![("a".to_string(), 5, 250)]);
    assert_eq!(with_pct(vec![("a".to_string(), -1)], 3), vec![("a".to_string(), -1, -33)]);
}

#[test]
fn random_code_has_the_length_and_the_alphabet() {
    for len in [0usize, 1, 7, 9, 64] {
        let code = random_code(len);
        assert_eq!(code.chars().count(), len);
        assert!(code.chars().all(|c| c.is_ascii_alphanumeric()));
    }
}

#[test]
fn random_codes_differ() {
    assert_ne!(random_code(32), random_code(32));
}

#[test]
fn ten_codes_are_checked_then_a_longer_one_is_taken() {
    for failed in 0..10usize {
        let p = propose_code(failed);
        assert!(p.check);
        assert_eq!(p.code.len(), 7);
    }
    let p = propose_code(10);
    assert!(!p.check);
    assert_eq!(p.code.len(), 9);
    assert!(!propose_code(usize::MAX).check);
}

#[test]
fn only_a_code_without_a_link_is_free() {
    assert!(code_is_free(&StorageLookup::Missing));
    assert!(!code_is_free(&StorageLookup::Failed));
    assert!(!code_is_free(&StorageLookup::Found(link("abc", "https://example.com"))));
}

#[test]
fn login_form_matches_the_exact_password() {
    let f = LoginForm { password: "s3cret".to_string() };
    assert!(f.matches("s3cret"));
    assert!(!f.matches("s3cret "));
    assert!(!f.matches("S3cret"));
    assert!(!f.matches(""));
}

#[test]
fn valid_form_is_trimmed() {
    let f = CreateLinkForm {
        url: "  https://example.com/page \n".to_string(),
        title: Some("  My page ".to_string()),
        description: Some("   ".to_string()),
        custom_code: Some(" my-code1 ".to_string()),
    };
    let link = f.validate().unwrap();
    assert_eq!(link.url, "https://example.com/page");
    assert_eq!(link.title, Some("My page".to_string()));
    assert_eq!(link.description, None);
    assert_eq!(link.custom_code, Some("my-code1".to_string()));
}

#[test]
fn form_without_a_code_asks_for_a_generated_one() {
    let link = form("http://example.com", None).validate().unwrap();
    assert_eq!(link.custom_code, None);
    let link = form("http://example.com", Some("  ")).validate().unwrap();
    assert_eq!(link.custom_code, None);
}

#[test]
fn blank_url_is_refused() {
    assert_eq!(form("", None).validate().unwrap_err(), FormError::EmptyUrl);
    assert_eq!(form("  \t ", Some("bad code")).validate().unwrap_err(), FormError::EmptyUrl);
}

#[test]
fn url_without_a_web_scheme_is_refused() {
    for url in ["example.com", "ftp://example.com", "HTTP://example.com", "http:/example.com", "https:"] {
        assert_eq!(form(url, None).validate().unwrap_err(), FormError::BadScheme, "{:?}", url);
    }
    assert_eq!(form("ftp://x", Some("bad code")).validate().unwrap_err(), FormError::BadScheme);
}

#[test]
fn custom_code_with_other_characters_is_refused() {
    for code in ["my code", "a/b", "a_b", "a.b", "caf\u{e9}!"] {
        assert_eq!(
            form("https://example.com", Some(code)).validate().unwrap_err(),
            FormError::BadCode,
            "{:?}",
            code
        );
    }
}

#[test]
fn custom_code_may_hold_letters_of_any_script() {
    let link = form("https://example.com", Some("caf\u{e9}-\u{662f}9")).validate().unwrap();
    assert_eq!(link.custom_code, Some("caf\u{e9}-\u{662f}9".to_string()));
}

#[test]
fn form_errors_have_their_messages() {
    assert_eq!(FormError::EmptyUrl.message(), "URL must not be empty.");
    assert_eq!(FormError::BadScheme.message(), "URL must start with http:// or https://");
    assert_eq!(
        FormError::BadCode.message(),
        "Custom code may only contain letters, numbers, and hyphens."
    );
}

#[test]
fn created_link_is_cached_at_once() {
    let mut cache = LinkCache::new();
    let outcome = CreateOutcome::Created(link("abc1234", "https://example.com/page"));
    match after_create(&outcome, "https://go.example.com", &mut cache) {
        Flash::Success(m) => assert_eq!(m, "Link created: https://go.example.com/abc1234"),
        Flash::Error(m) => panic!("unexpected error {:?}", m),
    }
    assert_eq!(cache.get("abc1234"), Some("https://example.com/page".to_string()));
}

#[test]
fn taken_code_is_told_apart_from_other_failures() {
    let mut cache = LinkCache::new();
    let taken = CreateOutcome::Failed("UNIQUE constraint failed: links.short_code".to_string());
    match after_create(&taken, "https://go.example.com", &mut cache) {
        Flash::Error(m) => assert_eq!(m, "That short code is already taken. Try another."),
        Flash::Success(m) => panic!("unexpected success {:?}", m),
    }
    let other = CreateOutcome::Failed("disk I/O error (unique)".to_string());
    match after_create(&other, "https://go.example.com", &mut cache) {
        Flash::Error(m) => assert_eq!(m, "Database error: disk I/O error (unique)"),
        Flash::Success(m) => panic!("unexpected success {:?}", m),
    }
    assert!(cache.is_empty());
}

#[test]
fn deleted_link_leaves_the_cache() {
    let mut cache = LinkCache::new();
    cache.set("abc1234", "https://example.com/page");
    cache.set("other", "https://example.com/other");
    let l = link("abc1234", "https://example.com/page");
    match after_delete(&l, DeleteOutcome::Deleted, &mut cache) {
        Flash::Success(m) => assert_eq!(m, "Link 'abc1234' deleted."),
        Flash::Error(m) => panic!("unexpected error {:?}", m),
    }
    assert_eq!(cache.get("abc1234"), None);
    assert_eq!(cache.len(), 1);
}

#[test]
fn failed_deletion_keeps_the_cache() {
    let mut cache = LinkCache::new();
    cache.set("abc1234", "https://example.com/page");
    let l = link("abc1234", "https://example.com/page");
    match after_delete(&l, DeleteOutcome::NotFound, &mut cache) {
        Flash::Error(m) => assert_eq!(m, "Link not found."),
        Flash::Success(m) => panic!("unexpected success {:?}", m),
    }
    match after_delete(&l, DeleteOutcome::Failed, &mut cache) {
        Flash::Error(m) => assert_eq!(m, "Failed to delete link."),
        Flash::Success(m) => panic!("unexpected success {:?}", m),
    }
    assert_eq!(cache.len(), 1);
}

#[test]
fn deletion_needs_the_link_first() {
    assert!(before_delete(&StorageLookup::Found(link("abc", "https://example.com"))).is_none());
    match before_delete(&StorageLookup::Missing) {
        Some(Flash::Error(m)) => assert_eq!(m, "Link not found."),
        other => panic!("unexpected {:?}", other),
    }
    match before_delete(&StorageLookup::Failed) {
        Some(Flash::Error(m)) => assert_eq!(m, "Database error while looking up link."),
        other => panic!("unexpected {:?}", other),
    }
}

fn click(browser: Option<&str>, os: Option<&str>, country: Option<&str>) -> Click {
    Click {
        id: 0,
        link_id: 1,
        clicked_at: NaiveDateTime::default(),
        ip_address: None,
        user_agent: None,
        referer: Some("https://ref.example/".to_string()),
        browser: browser.map(str::to_string),
        os: os.map(str::to_string),
        device_type: None,
        country: country.map(str::to_string),
        region: None,
        city: None,
    }
}

#[test]
fn each_column_has_its_own_table() {
    let clicks = vec![
        click(Some("Firefox"), Some("Linux"), Some("Germany")),
        click(Some("Firefox"), Some("Mac OSX"), None),
        click(Some("Chrome"), Some("Linux"), Some("")),
        click(None, Some("Linux"), Some("France")),
    ];
    assert_eq!(
        breakdown(&clicks, ClickField::Browser, 4),
        vec![("Firefox".to_string(), 2, 50), ("Chrome".to_string(), 1, 25)]
    );
    assert_eq!(
        breakdown(&clicks, ClickField::Os, 4),
        vec![("Linux".to_string(), 3, 75), ("Mac OSX".to_string(), 1, 25)]
    );
    assert_eq!(breakdown(&clicks, ClickField::DeviceType, 4), Vec::new());
    assert_eq!(
        breakdown(&clicks, ClickField::Referer, 4),
        vec![("https://ref.example/".to_string(), 4, 100)]
    );
    let countries = breakdown(&clicks, ClickField::Country, 3);
    assert_eq!(countries.len(), 2);
    assert!(countries.iter().all(|r| r.1 == 1 && r.2 == 33));
}

#[test]
fn table_of_no_clicks_is_empty() {
    assert_eq!(breakdown(&Vec::new(), ClickField::Browser, 0), Vec::new());
}
