use notify_push::connection::{ActiveConnections, ConnectionError};
use notify_push::debounce::DebounceIntervals;
use notify_push::message::MessageType;
use notify_push::metrics::Metrics;
use notify_push::session::{
    classify_socket_error, has_phrase, payload_matches, Admitted, LogLevel, Outgoing, Session,
    QUIET_WINDOW_MILLIS,
};
use notify_push::user::UserId;

fn user(name: &str) -> UserId {
    UserId::new(name.to_string())
}

fn started(name: &str, connections: &mut ActiveConnections, metrics: &mut Metrics) -> Admitted {
    match Session::start(user(name), DebounceIntervals::default(), connections, metrics) {
        Ok(admitted) => admitted,
        Err(error) => panic!("{:?}", error),
    }
}

fn nonce_of(frames: &[Outgoing]) -> Vec<u8> {
    assert_eq!(frames.len(), 1);
    match &frames[0] {
        Outgoing::Ping(payload) => payload.clone(),
        other => panic!("{:?}", other),
    }
}

#[test]
fn quiet_window_is_thirty_seconds() {
    assert_eq!(QUIET_WINDOW_MILLIS, 30000);
}

#[test]
fn starting_a_session_counts_the_connection() {
    let mut connections = ActiveConnections::new();
    let mut metrics = Metrics::new();
    let admitted = started("alice", &mut connections, &mut metrics);
    assert!(admitted.session.is_open());
    assert_eq!(admitted.session.user(), &user("alice"));
    assert_eq!(metrics.active_connection_count(), 1);
    assert_eq!(metrics.message_count(), 0);
}

#[test]
fn refused_session_is_not_counted() {
    let mut connections = ActiveConnections::new();
    let mut metrics = Metrics::new();
    let mut held = Vec::new();
    for _ in 0..65 {
        held.push(started("carol", &mut connections, &mut metrics));
    }
    assert_eq!(metrics.active_connection_count(), 65);
    let refused =
        Session::start(user("carol"), DebounceIntervals::default(), &mut connections, &mut metrics);
    assert_eq!(refused.err(), Some(ConnectionError::LimitExceeded));
    assert_eq!(metrics.active_connection_count(), 65);
}

#[test]
fn message_is_written_in_its_wire_form() {
    let mut connections = ActiveConnections::new();
    let mut metrics = Metrics::new();
    let mut session = started("alice", &mut connections, &mut metrics).session;
    assert_eq!(
        session.on_message(&MessageType::Activity, 0, &mut metrics),
        Some(Outgoing::Text("activity".to_string()))
    );
    let custom = MessageType::Custom("chat".to_string(), "hi".to_string());
    assert_eq!(
        session.on_message(&custom, 0, &mut metrics),
        Some(Outgoing::Text("chat hi".to_string()))
    );
    assert_eq!(metrics.message_count(), 2);
}

#[test]
fn debounced_message_is_not_written_nor_counted() {
    let mut connections = ActiveConnections::new();
    let mut metrics = Metrics::new();
    let mut session = started("eve", &mut connections, &mut metrics).session;
    assert_eq!(
        session.on_message(&MessageType::File, 0, &mut metrics),
        Some(Outgoing::Text("file".to_string()))
    );
    assert_eq!(session.on_message(&MessageType::File, 500, &mut metrics), None);
    assert_eq!(metrics.message_count(), 1);
    assert!(session.is_open());
}

#[test]
fn quiet_window_flushes_held_messages() {
    let mut connections = ActiveConnections::new();
    let mut metrics = Metrics::new();
    let mut session = started("eve", &mut connections, &mut metrics).session;
    session.on_message(&MessageType::File, 0, &mut metrics);
    session.on_message(&MessageType::File, 500, &mut metrics);
    assert_eq!(
        session.on_quiet(30500, &mut metrics),
        vec![Outgoing::Text("file".to_string())]
    );
    assert_eq!(metrics.message_count(), 2);
    assert!(session.is_open());
}

#[test]
fn flush_keeps_what_is_still_debounced() {
    let mut connections = ActiveConnections::new();
    let mut metrics = Metrics::new();
    let intervals = DebounceIntervals { file: 60000, activity: 0, notification: 0, custom: 0 };
    let mut session =
        match Session::start(user("eve"), intervals, &mut connections, &mut metrics) {
            Ok(admitted) => admitted.session,
            Err(error) => panic!("{:?}", error),
        };
    session.on_message(&MessageType::File, 0, &mut metrics);
    session.on_message(&MessageType::File, 500, &mut metrics);
    assert_eq!(session.on_quiet(30500, &mut metrics), Vec::new());
    assert_eq!(
        session.on_quiet(60500, &mut metrics),
        vec![Outgoing::Text("file".to_string())]
    );
    assert_eq!(metrics.message_count(), 2);
}

#[test]
fn quiet_window_without_held_messages_sends_a_ping() {
    let mut connections = ActiveConnections::new();
    let mut metrics = Metrics::new();
    let mut session = started("dan", &mut connections, &mut metrics).session;
    let payload = nonce_of(&session.on_quiet(30000, &mut metrics));
    assert_eq!(payload.len(), 8);
    assert_ne!(payload, vec![0u8; 8]);
    assert!(session.is_open());
    assert_eq!(metrics.message_count(), 0);
}

#[test]
fn echoed_pong_keeps_the_session() {
    let mut connections = ActiveConnections::new();
    let mut metrics = Metrics::new();
    let mut session = started("dan", &mut connections, &mut metrics).session;
    let payload = nonce_of(&session.on_quiet(30000, &mut metrics));
    session.on_pong(&payload, &mut metrics);
    assert!(session.is_open());
    let again = nonce_of(&session.on_quiet(60000, &mut metrics));
    session.on_pong(&again, &mut metrics);
    assert!(session.is_open());
    assert_eq!(metrics.active_connection_count(), 1);
}

#[test]
fn unanswered_ping_ends_the_session_at_the_next_quiet_window() {
    let mut connections = ActiveConnections::new();
    let mut metrics = Metrics::new();
    let mut session = started("dan", &mut connections, &mut metrics).session;
    assert_eq!(session.on_quiet(30000, &mut metrics).len(), 1);
    assert_eq!(session.on_quiet(60000, &mut metrics), Vec::new());
    assert!(!session.is_open());
    assert_eq!(metrics.active_connection_count(), 0);
}

#[test]
fn wrong_pong_ends_the_session() {
    let mut connections = ActiveConnections::new();
    let mut metrics = Metrics::new();
    let mut session = started("dan", &mut connections, &mut metrics).session;
    let mut payload = nonce_of(&session.on_quiet(30000, &mut metrics));
    payload[3] ^= 1;
    session.on_pong(&payload, &mut metrics);
    assert!(!session.is_open());
    assert_eq!(metrics.active_connection_count(), 0);
}

#[test]
fn short_pong_ends_the_session() {
    let mut connections = ActiveConnections::new();
    let mut metrics = Metrics::new();
    let mut session = started("dan", &mut connections, &mut metrics).session;
    let payload = nonce_of(&session.on_quiet(30000, &mut metrics));
    session.on_pong(&payload[..7], &mut metrics);
    assert!(!session.is_open());
}

#[test]
fn unasked_pong_must_carry_eight_zero_bytes() {
    let mut connections = ActiveConnections::new();
    let mut metrics = Metrics::new();
    let mut session = started("dan", &mut connections, &mut metrics).session;
    session.on_pong(&[0u8; 8], &mut metrics);
    assert!(session.is_open());
    session.on_pong(&[], &mut metrics);
    assert!(!session.is_open());
}

#[test]
fn probe_with_a_given_nonce() {
    let mut connections = ActiveConnections::new();
    let mut metrics = Metrics::new();
    let mut session = started("dan", &mut connections, &mut metrics).session;
    assert_eq!(
        session.probe(0x0807060504030201, &mut metrics),
        Some(Outgoing::Ping(vec![1, 2, 3, 4, 5, 6, 7, 8]))
    );
    session.on_pong(&[1, 2, 3, 4, 5, 6, 7, 8], &mut metrics);
    assert!(session.is_open());
    assert_eq!(session.probe(1, &mut metrics), Some(Outgoing::Ping(vec![1, 0, 0, 0, 0, 0, 0, 0])));
    assert_eq!(session.probe(2, &mut metrics), None);
    assert!(!session.is_open());
    assert_eq!(metrics.active_connection_count(), 0);
}

#[test]
fn payload_is_compared_with_little_endian_bytes() {
    assert!(payload_matches(&[0x78, 0x56, 0x34, 0x12, 0, 0, 0, 0], 0x12345678));
    assert!(!payload_matches(&[0, 0, 0, 0, 0x12, 0x34, 0x56, 0x78], 0x12345678));
    assert!(!payload_matches(&[0x78, 0x56, 0x34, 0x12], 0x12345678));
    assert!(payload_matches(&[0xff; 8], u64::MAX));
    assert!(payload_matches(&[0; 8], 0));
    assert!(!payload_matches(&[0; 9], 0));
}

#[test]
fn reset_closes_the_writer() {
    let mut connections = ActiveConnections::new();
    let mut metrics = Metrics::new();
    let mut session = started("alice", &mut connections, &mut metrics).session;
    assert_eq!(session.on_reset(&mut metrics), Some(Outgoing::Close));
    assert!(!session.is_open());
    assert_eq!(metrics.active_connection_count(), 0);
    assert_eq!(session.on_reset(&mut metrics), None);
    assert_eq!(metrics.active_connection_count(), 0);
}

#[test]
fn socket_errors_are_classified() {
    assert_eq!(
        classify_socket_error(
            "WebSocket protocol error: Connection reset without closing handshake"
        ),
        LogLevel::Debug
    );
    assert_eq!(
        classify_socket_error("IO error: Connection reset by peer (os error 104)"),
        LogLevel::Debug
    );
    assert_eq!(classify_socket_error("Connection reset by peer"), LogLevel::Debug);
    assert_eq!(classify_socket_error("Connection reset without closing handshake"), LogLevel::Debug);
    assert_eq!(classify_socket_error("IO error: Broken pipe (os error 32)"), LogLevel::Warn);
    assert_eq!(classify_socket_error("Connection reset"), LogLevel::Warn);
    assert_eq!(classify_socket_error("connection reset by peer"), LogLevel::Warn);
    assert_eq!(classify_socket_error(""), LogLevel::Warn);
}

#[test]
fn socket_error_ends_the_session() {
    let mut connections = ActiveConnections::new();
    let mut metrics = Metrics::new();
    let mut session = started("alice", &mut connections, &mut metrics).session;
    assert_eq!(
        session.on_socket_error("IO error: Connection reset by peer (os error 104)", &mut metrics),
        LogLevel::Debug
    );
    assert!(!session.is_open());
    assert_eq!(metrics.active_connection_count(), 0);
    assert_eq!(session.on_socket_error("other", &mut metrics), LogLevel::Warn);
    assert_eq!(metrics.active_connection_count(), 0);
}

#[test]
fn end_of_stream_ends_the_session_once() {
    let mut connections = ActiveConnections::new();
    let mut metrics = Metrics::new();
    let mut first = started("alice", &mut connections, &mut metrics).session;
    let second = started("alice", &mut connections, &mut metrics).session;
    assert_eq!(metrics.active_connection_count(), 2);
    first.on_end_of_stream(&mut metrics);
    first.on_end_of_stream(&mut metrics);
    assert!(!first.is_open());
    assert!(second.is_open());
    assert_eq!(metrics.active_connection_count(), 1);
}

#[test]
fn ended_session_does_nothing() {
    let mut connections = ActiveConnections::new();
    let mut metrics = Metrics::new();
    let mut session = started("alice", &mut connections, &mut metrics).session;
    session.on_end_of_stream(&mut metrics);
    assert_eq!(session.on_message(&MessageType::File, 0, &mut metrics), None);
    assert_eq!(session.on_quiet(30000, &mut metrics), Vec::new());
    assert_eq!(session.probe(5, &mut metrics), None);
    session.on_pong(&[1, 2, 3], &mut metrics);
    assert_eq!(metrics.active_connection_count(), 0);
    assert_eq!(metrics.message_count(), 0);
}

#[test]
fn phrase_is_found_anywhere_in_a_text() {
    assert!(has_phrase("abcdef", "abc"));
    assert!(has_phrase("abcdef", "cde"));
    assert!(has_phrase("abcdef", "def"));
    assert!(has_phrase("abcdef", "abcdef"));
    assert!(has_phrase("abcdef", ""));
    assert!(has_phrase("", ""));
    assert!(!has_phrase("abcdef", "abd"));
    assert!(!has_phrase("abcdef", "abcdefg"));
    assert!(!has_phrase("", "a"));
    assert!(has_phrase("gr\u{fc}\u{df}e, peer", "\u{df}e, p"));
    assert!(!has_phrase("gr\u{fc}\u{df}e", "ss"));
}
