use ipa_server::limit::{RateLimitGuard, RATE_LIMIT_PER_HOUR};
use ipa_server::routes::{all_options, index};
use ipa_server::text::{same_text, starts_with};

#[test]
fn hourly_quota() {
    assert_eq!(RATE_LIMIT_PER_HOUR, 100);
    assert_eq!(RateLimitGuard::quota(), 100);
    assert!(RateLimitGuard::limit_info_allow());
}

#[test]
fn landing_text() {
    assert_eq!(
        index(),
        "This is a ipa_server, running on Rocket (Rust). You probably meant to do a POST request"
    );
}

#[test]
fn preflight_has_no_body() {
    assert_eq!(all_options(), ());
}

#[test]
fn prefixes() {
    assert!(starts_with("abc", ""));
    assert!(starts_with("", ""));
    assert!(starts_with("abc", "ab"));
    assert!(starts_with("abc", "abc"));
    assert!(!starts_with("abc", "abcd"));
    assert!(!starts_with("abc", "bc"));
    assert!(!starts_with("", "a"));
    assert!(starts_with("kæt", "kæ"));
    assert!(!starts_with("kæt", "ka"));
}

#[test]
fn equal_texts() {
    assert!(same_text("", ""));
    assert!(same_text("English", "English"));
    assert!(!same_text("English", "english"));
    assert!(!same_text("English", "Englis"));
    assert!(!same_text("Englis", "English"));
    assert!(same_text("kæt", "kæt"));
    assert!(!same_text("kæt", "kat"));
}
