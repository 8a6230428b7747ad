use notify_push::debounce::{DebounceIntervals, DebounceMap};
use notify_push::message::MessageType;

fn custom(tag: &str, body: &str) -> MessageType {
    MessageType::Custom(tag.to_string(), body.to_string())
}

#[test]
fn default_intervals_are_per_kind() {
    let intervals = DebounceIntervals::default();
    assert_eq!(intervals.file, 5000);
    assert_eq!(intervals.activity, 15000);
    assert_eq!(intervals.notification, 1000);
    assert_eq!(intervals.custom, 1);
    assert_eq!(intervals.interval(&MessageType::File.kind()), 5000);
    assert_eq!(intervals.interval(&MessageType::Activity.kind()), 15000);
    assert_eq!(intervals.interval(&MessageType::Notification.kind()), 1000);
    assert_eq!(intervals.interval(&custom("chat", "x").kind()), 1);
}

#[test]
fn first_message_of_a_kind_is_sent() {
    let mut map = DebounceMap::new(DebounceIntervals::default());
    assert!(map.should_send(&MessageType::File, 0));
    assert!(map.should_send(&MessageType::Activity, 0));
    assert!(map.should_send(&MessageType::Notification, 0));
    assert!(!map.has_held_message());
}

#[test]
fn second_message_within_interval_is_held() {
    let mut map = DebounceMap::new(DebounceIntervals::default());
    assert!(map.should_send(&MessageType::File, 1000));
    assert!(!map.should_send(&MessageType::File, 1500));
    assert!(map.has_held_message());
    assert!(!map.should_send(&MessageType::File, 5999));
    assert!(map.should_send(&MessageType::File, 6000));
    assert!(!map.has_held_message());
}

#[test]
fn interval_counts_from_the_last_send_not_the_last_offer() {
    let mut map = DebounceMap::new(DebounceIntervals::default());
    assert!(map.should_send(&MessageType::Notification, 0));
    assert!(!map.should_send(&MessageType::Notification, 900));
    assert!(map.should_send(&MessageType::Notification, 1000));
    assert!(!map.should_send(&MessageType::Notification, 1999));
    assert!(map.should_send(&MessageType::Notification, 2000));
}

#[test]
fn kinds_are_debounced_apart() {
    let mut map = DebounceMap::new(DebounceIntervals::default());
    assert!(map.should_send(&MessageType::File, 10));
    assert!(map.should_send(&MessageType::Activity, 10));
    assert!(!map.should_send(&MessageType::File, 11));
    assert!(map.should_send(&MessageType::Notification, 11));
}

#[test]
fn custom_messages_are_debounced_by_tag() {
    let intervals = DebounceIntervals { file: 0, activity: 0, notification: 0, custom: 100 };
    let mut map = DebounceMap::new(intervals);
    assert!(map.should_send(&custom("chat", "one"), 0));
    assert!(map.should_send(&custom("mail", "one"), 0));
    assert!(!map.should_send(&custom("chat", "two"), 50));
    assert!(map.should_send(&custom("chat", "three"), 100));
}

#[test]
fn held_slot_keeps_the_latest_message() {
    let intervals = DebounceIntervals { file: 0, activity: 0, notification: 0, custom: 100 };
    let mut map = DebounceMap::new(intervals);
    assert!(map.should_send(&custom("chat", "one"), 0));
    assert!(!map.should_send(&custom("chat", "two"), 10));
    assert!(!map.should_send(&custom("chat", "three"), 20));
    let held = map.drain_held();
    assert_eq!(held, vec![custom("chat", "three")]);
    assert!(!map.has_held_message());
    assert!(map.drain_held().is_empty());
}

#[test]
fn drain_returns_one_message_per_kind() {
    let mut map = DebounceMap::new(DebounceIntervals::default());
    assert!(map.should_send(&MessageType::File, 0));
    assert!(map.should_send(&MessageType::Activity, 0));
    assert!(!map.should_send(&MessageType::File, 1));
    assert!(!map.should_send(&MessageType::File, 2));
    assert!(!map.should_send(&MessageType::Activity, 3));
    let held = map.drain_held();
    assert_eq!(held.len(), 2);
    assert!(held.contains(&MessageType::File));
    assert!(held.contains(&MessageType::Activity));
}

#[test]
fn flush_sends_what_is_due_and_keeps_the_rest() {
    let mut map = DebounceMap::new(DebounceIntervals::default());
    assert!(map.should_send(&MessageType::File, 0));
    assert!(map.should_send(&MessageType::Activity, 0));
    assert!(!map.should_send(&MessageType::File, 100));
    assert!(!map.should_send(&MessageType::Activity, 100));
    let sent = map.flush(6000);
    assert_eq!(sent, vec![MessageType::File]);
    assert!(map.has_held_message());
    assert!(map.flush(14999).is_empty());
    assert_eq!(map.flush(15000), vec![MessageType::Activity]);
    assert!(!map.has_held_message());
    assert!(map.flush(40000).is_empty());
}

#[test]
fn flushed_message_starts_a_new_interval() {
    let mut map = DebounceMap::new(DebounceIntervals::default());
    assert!(map.should_send(&MessageType::File, 0));
    assert!(!map.should_send(&MessageType::File, 100));
    assert_eq!(map.flush(30000), vec![MessageType::File]);
    assert!(!map.should_send(&MessageType::File, 34999));
    assert!(map.should_send(&MessageType::File, 35000));
}

#[test]
fn sending_drops_an_older_held_message() {
    let mut map = DebounceMap::new(DebounceIntervals::default());
    assert!(map.should_send(&MessageType::File, 0));
    assert!(!map.should_send(&MessageType::File, 100));
    assert!(map.should_send(&MessageType::File, 5000));
    assert!(!map.has_held_message());
    assert!(map.flush(20000).is_empty());
}

#[test]
fn purge_changes_no_answer() {
    let mut map = DebounceMap::new(DebounceIntervals::default());
    assert!(map.should_send(&MessageType::File, 0));
    assert!(map.should_send(&MessageType::Activity, 0));
    assert!(!map.should_send(&MessageType::Activity, 10));
    map.purge(6000);
    assert!(map.has_held_message());
    assert!(map.should_send(&MessageType::File, 6000));
    assert!(!map.should_send(&MessageType::Activity, 6000));
    map.purge(7000);
    assert!(!map.should_send(&MessageType::File, 7000));
}

#[test]
fn clock_that_reads_earlier_counts_as_no_time_passed() {
    let mut map = DebounceMap::new(DebounceIntervals::default());
    assert!(map.should_send(&MessageType::File, 10000));
    assert!(!map.should_send(&MessageType::File, 2000));
}

#[test]
fn zero_interval_switches_debouncing_off() {
    let intervals = DebounceIntervals { file: 0, activity: 0, notification: 0, custom: 0 };
    let mut map = DebounceMap::new(intervals);
    assert!(map.should_send(&MessageType::File, 5));
    assert!(map.should_send(&MessageType::File, 5));
    assert!(map.should_send(&custom("a", "b"), 5));
    assert!(map.should_send(&custom("a", "c"), 5));
}
