//! How long tokens are kept.

use docker_checker::token::{default_expires_in, token_ttl, TokenCache, TokenResponse};

const SECOND: u64 = 1_000_000_000;

#[test]
fn default_lifetime() {
    assert_eq!(default_expires_in(), 300);
}

#[test]
fn token_without_a_reported_lifetime() {
    assert_eq!(token_ttl(None), 290);
    assert_eq!(token_ttl(Some(300)), 300);
    let mut cache = TokenCache::new();
    cache.store("https://r", "a", "secret", None, 0);
    assert_eq!(cache.get("https://r", "a", 290 * SECOND - 1).unwrap(), "secret");
    assert!(cache.get("https://r", "a", 290 * SECOND).is_none());
}

#[test]
fn token_is_used_until_its_time_is_up() {
    let mut cache = TokenCache::new();
    assert!(cache.get("https://r", "a", 0).is_none());
    cache.store("https://r", "a", "secret", Some(300), 5);
    assert_eq!(cache.get("https://r", "a", 5).unwrap(), "secret");
    assert_eq!(cache.get("https://r", "a", 300 * SECOND + 4).unwrap(), "secret");
    assert!(cache.get("https://r", "a", 300 * SECOND + 5).is_none());
}

#[test]
fn token_is_kept_as_long_as_it_is_good_for() {
    for expires_in in [1, 30, 60, 70, 100] {
        let mut cache = TokenCache::new();
        cache.store("https://r", "a", "secret", Some(expires_in), 0);
        assert_eq!(cache.get("https://r", "a", expires_in * SECOND - 1).unwrap(), "secret");
        assert!(cache.get("https://r", "a", expires_in * SECOND).is_none());
    }
    let mut cache = TokenCache::new();
    cache.store("https://r", "a", "secret", Some(0), 7);
    assert!(cache.get("https://r", "a", 7).is_none());
}

#[test]
fn tokens_are_kept_per_registry_and_image() {
    let mut cache = TokenCache::new();
    cache.store("https://r", "a", "one", Some(300), 0);
    cache.store("https://r", "b", "two", Some(300), 0);
    assert_eq!(cache.get("https://r", "a", 1).unwrap(), "one");
    assert_eq!(cache.get("https://r", "b", 1).unwrap(), "two");
    assert!(cache.get("https://s", "a", 1).is_none());
    cache.store("https://r", "a", "three", Some(300), 2);
    assert_eq!(cache.get("https://r", "a", 3).unwrap(), "three");
}

#[test]
fn colons_do_not_mix_up_registries_and_images() {
    let mut cache = TokenCache::new();
    cache.store("https://localhost", "5000:x", "one", Some(300), 0);
    assert!(cache.get("https://localhost:5000", "x", 1).is_none());
    cache.store("https://localhost:5000", "x", "two", Some(300), 0);
    assert_eq!(cache.get("https://localhost", "5000:x", 1).unwrap(), "one");
    assert_eq!(cache.get("https://localhost:5000", "x", 1).unwrap(), "two");
    cache.store("", "10:https://ab", "three", Some(300), 0);
    cache.store("0:10:https", "://ab", "four", Some(300), 0);
    assert_eq!(cache.get("", "10:https://ab", 1).unwrap(), "three");
}

#[test]
fn very_long_lifetimes() {
    let mut cache = TokenCache::new();
    cache.store("r", "a", "t", Some(u64::MAX), u64::MAX);
    assert_eq!(cache.get("r", "a", u64::MAX).unwrap(), "t");
}

fn response(token: Option<&str>, access_token: Option<&str>) -> TokenResponse {
    TokenResponse {
        token: token.map(|t| t.to_string()),
        access_token: access_token.map(|t| t.to_string()),
        expires_in: Some(1),
    }
}

#[test]
fn either_field_holds_the_token() {
    assert_eq!(response(Some("a"), Some("b")).into_token().unwrap(), "a");
    assert_eq!(response(None, Some("b")).into_token().unwrap(), "b");
    assert_eq!(response(Some("a"), None).into_token().unwrap(), "a");
    assert!(response(None, None).into_token().is_none());
}
