use linkly::auth::{AuthUser, SessionStore, LOGIN_PATH, NANOS_PER_SEC, SESSION_COOKIE};

const HOUR: u128 = 3600 * NANOS_PER_SEC;

#[test]
fn new_store_has_the_duration_in_seconds() {
    assert_eq!(SessionStore::new(24).session_duration_secs(), 86_400);
    assert_eq!(SessionStore::new(0).session_duration_secs(), 0);
    assert_eq!(SessionStore::new(1).session_duration_secs(), 3600);
}

#[test]
fn created_token_is_valid_at_once() {
    let mut store = SessionStore::new(24);
    let token = store.create();
    assert!(store.is_valid(&token));
}

#[test]
fn created_token_is_a_hyphenated_identifier() {
    let mut store = SessionStore::new(24);
    let token = store.create();
    assert_eq!(token.chars().count(), 36);
    for (i, c) in token.chars().enumerate() {
        if i == 8 || i == 13 || i == 18 || i == 23 {
            assert_eq!(c, '-');
        } else {
            assert!(c.is_ascii_hexdigit() && !c.is_ascii_uppercase());
        }
    }
}

#[test]
fn created_tokens_differ() {
    let mut store = SessionStore::new(24);
    let a = store.create();
    let b = store.create();
    assert_ne!(a, b);
    assert!(store.is_valid(&a));
    assert!(store.is_valid(&b));
}

#[test]
fn unknown_token_is_not_valid() {
    let mut store = SessionStore::new(24);
    store.create();
    assert!(!store.is_valid("00000000-0000-4000-8000-000000000000"));
    assert!(!store.is_valid(""));
}

#[test]
fn token_expires_when_its_age_reaches_the_duration() {
    let mut store = SessionStore::new(1);
    store.create_at("tok".to_string(), 5);
    assert!(store.is_valid_at("tok", 5));
    assert!(store.is_valid_at("tok", 5 + HOUR - 1));
    assert!(!store.is_valid_at("tok", 5 + HOUR));
    assert!(!store.is_valid_at("tok", 5 + HOUR + 1));
    assert!(!store.is_valid_at("tok", 5 + 100 * HOUR));
}

#[test]
fn checking_validity_does_not_renew_a_token() {
    let mut store = SessionStore::new(1);
    store.create_at("tok".to_string(), 0);
    assert!(store.is_valid_at("tok", HOUR - 1));
    assert!(!store.is_valid_at("tok", HOUR));
    assert!(store.is_valid_at("tok", 10));
}

#[test]
fn a_clock_before_the_creation_counts_as_no_age() {
    let mut store = SessionStore::new(1);
    store.create_at("tok".to_string(), 1000);
    assert!(store.is_valid_at("tok", 0));
}

#[test]
fn zero_duration_makes_no_token_valid() {
    let mut store = SessionStore::new(0);
    store.create_at("tok".to_string(), 7);
    assert!(!store.is_valid_at("tok", 7));
    let token = store.create();
    assert!(!store.is_valid(&token));
}

#[test]
fn removed_token_is_not_valid() {
    let mut store = SessionStore::new(24);
    let token = store.create();
    store.remove(&token);
    assert!(!store.is_valid(&token));
}

#[test]
fn remove_is_idempotent_and_leaves_others() {
    let mut store = SessionStore::new(24);
    store.create_at("a".to_string(), 0);
    store.create_at("b".to_string(), 0);
    store.remove("a");
    store.remove("a");
    store.remove("never");
    assert!(!store.is_valid_at("a", 1));
    assert!(store.is_valid_at("b", 1));
}

#[test]
fn create_sweeps_expired_tokens_only() {
    let mut store = SessionStore::new(1);
    store.create_at("old".to_string(), 0);
    store.create_at("mid".to_string(), HOUR / 2);
    store.create_at("new".to_string(), HOUR);
    // "old" was swept at the third creation: it is gone even for an earlier clock.
    assert!(!store.is_valid_at("old", 10));
    assert!(store.is_valid_at("mid", HOUR));
    assert!(store.is_valid_at("new", HOUR));
}

#[test]
fn validity_check_sweeps_nothing() {
    let mut store = SessionStore::new(1);
    store.create_at("old".to_string(), 0);
    assert!(!store.is_valid_at("old", 2 * HOUR));
    assert!(store.is_valid_at("old", 10));
}

#[test]
fn creating_a_token_again_restarts_it() {
    let mut store = SessionStore::new(1);
    store.create_at("tok".to_string(), 0);
    store.create_at("tok".to_string(), HOUR / 2);
    assert!(store.is_valid_at("tok", HOUR));
    assert!(!store.is_valid_at("tok", HOUR + HOUR / 2));
}

#[test]
fn longest_duration_does_not_overflow() {
    let hours = u64::MAX / 3600;
    let mut store = SessionStore::new(hours);
    assert_eq!(store.session_duration_secs(), hours * 3600);
    store.create_at("tok".to_string(), 0);
    assert!(store.is_valid_at("tok", u64::MAX as u128));
    assert!(!store.is_valid_at("tok", u128::MAX));
}

#[test]
fn request_with_a_valid_cookie_is_let_in() {
    let mut store = SessionStore::new(1);
    store.create_at("tok".to_string(), 0);
    assert!(AuthUser::from_cookie_at(Some("tok"), &store, 10).is_some());
    let token = store.create();
    assert!(AuthUser::from_cookie(Some(&token), &store).is_some());
}

#[test]
fn request_without_a_valid_cookie_is_sent_to_login() {
    let mut store = SessionStore::new(1);
    store.create_at("tok".to_string(), 0);
    assert!(AuthUser::from_cookie_at(None, &store, 10).is_none());
    assert!(AuthUser::from_cookie_at(Some("other"), &store, 10).is_none());
    assert!(AuthUser::from_cookie_at(Some("tok"), &store, HOUR).is_none());
    assert!(AuthUser::from_cookie(None, &store).is_none());
    assert!(AuthUser::from_cookie(Some("other"), &store).is_none());
    assert_eq!(LOGIN_PATH, "/admin/login");
    assert_eq!(SESSION_COOKIE, "session_id");
}
