use notify_push::pre_auth::{fresh, PreAuthCache, PRE_AUTH_LIFETIME_MILLIS};
use notify_push::user::UserId;

fn user(name: &str) -> UserId {
    UserId::new(name.to_string())
}

#[test]
fn token_lifetime_is_fifteen_seconds() {
    assert_eq!(PRE_AUTH_LIFETIME_MILLIS, 15000);
    assert!(fresh(1000, 1000));
    assert!(fresh(1000, 15999));
    assert!(!fresh(1000, 16000));
    assert!(!fresh(1000, 60000));
    assert!(fresh(1000, 500));
}

#[test]
fn recorded_token_names_its_user() {
    let mut cache = PreAuthCache::new();
    cache.insert("abc".to_string(), user("bob"), 100);
    assert_eq!(cache.consume("abc", 200), Some(user("bob")));
}

#[test]
fn unknown_token_names_nobody() {
    let mut cache = PreAuthCache::new();
    cache.insert("abc".to_string(), user("bob"), 100);
    assert_eq!(cache.consume("abd", 200), None);
    assert_eq!(cache.consume("", 200), None);
    assert_eq!(cache.consume("abc", 200), Some(user("bob")));
}

#[test]
fn token_is_consumed_at_most_once() {
    let mut cache = PreAuthCache::new();
    cache.insert("abc".to_string(), user("bob"), 0);
    assert_eq!(cache.consume("abc", 10), Some(user("bob")));
    assert_eq!(cache.consume("abc", 11), None);
    assert_eq!(cache.consume("abc", 10), None);
}

#[test]
fn expired_token_is_refused() {
    let mut cache = PreAuthCache::new();
    cache.insert("abc".to_string(), user("bob"), 1000);
    assert_eq!(cache.consume("abc", 16000), None);
    assert_eq!(cache.consume("abc", 1500), None);
}

#[test]
fn token_is_accepted_until_just_before_it_expires() {
    let mut cache = PreAuthCache::new();
    cache.insert("abc".to_string(), user("bob"), 1000);
    assert_eq!(cache.consume("abc", 15999), Some(user("bob")));
}

#[test]
fn cull_drops_only_expired_tokens() {
    let mut cache = PreAuthCache::new();
    cache.insert("old".to_string(), user("ann"), 0);
    cache.insert("new".to_string(), user("bob"), 10000);
    cache.cull(15000);
    assert_eq!(cache.consume("old", 0), None);
    assert_eq!(cache.consume("new", 15000), Some(user("bob")));
}

#[test]
fn consuming_one_token_culls_the_expired_ones() {
    let mut cache = PreAuthCache::new();
    cache.insert("old".to_string(), user("ann"), 0);
    cache.insert("new".to_string(), user("bob"), 10000);
    assert_eq!(cache.consume("other", 20000), None);
    assert_eq!(cache.consume("old", 5000), None);
    assert_eq!(cache.consume("new", 20000), Some(user("bob")));
}

#[test]
fn recording_a_token_again_starts_it_afresh() {
    let mut cache = PreAuthCache::new();
    cache.insert("abc".to_string(), user("ann"), 0);
    cache.insert("abc".to_string(), user("bob"), 14000);
    assert_eq!(cache.consume("abc", 20000), Some(user("bob")));
}

#[test]
fn default_cache_is_empty() {
    let mut cache = PreAuthCache::default();
    assert_eq!(cache.consume("abc", 0), None);
}
