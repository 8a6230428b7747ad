use notify_push::auth::{
    handshake_reply, read_socket_auth_message, socket_auth, verdict, AuthError, AuthRead, AuthStep,
    HANDSHAKE_DEADLINE_MILLIS,
};
use notify_push::pre_auth::PreAuthCache;
use notify_push::user::UserId;

fn user(name: &str) -> UserId {
    UserId::new(name.to_string())
}

#[test]
fn handshake_deadline_is_fifteen_seconds() {
    assert_eq!(HANDSHAKE_DEADLINE_MILLIS, 15000);
}

#[test]
fn text_frame_is_taken_as_it_is() {
    assert_eq!(read_socket_auth_message(AuthRead::Text("alice".to_string())), Ok("alice".to_string()));
    assert_eq!(read_socket_auth_message(AuthRead::Text(String::new())), Ok(String::new()));
}

#[test]
fn frame_that_is_not_text_is_invalid() {
    assert_eq!(read_socket_auth_message(AuthRead::NotText), Err(AuthError::InvalidMessage));
}

#[test]
fn socket_error_during_handshake() {
    assert_eq!(read_socket_auth_message(AuthRead::Failed), Err(AuthError::SocketError));
}

#[test]
fn disconnect_during_handshake() {
    assert_eq!(read_socket_auth_message(AuthRead::Ended), Err(AuthError::Disconnected));
}

#[test]
fn error_messages() {
    assert_eq!(AuthError::Timeout.message(), "Authentication timeout");
    assert_eq!(AuthError::InvalidCredentials.message(), "Invalid credentials");
    assert_eq!(AuthError::InvalidMessage.message(), "Invalid authentication message");
    assert_eq!(AuthError::SocketError.message(), "Socket error during authentication");
    assert_eq!(AuthError::Disconnected.message(), "Client disconnected during authentication");
    assert_eq!(AuthError::Rejected("wrong password".to_string()).message(), "wrong password");
}

#[test]
fn error_replies() {
    assert_eq!(AuthError::Timeout.reply(), "Authentication timeout");
    assert_eq!(AuthError::InvalidCredentials.reply(), "err: Invalid credentials");
    assert_eq!(AuthError::InvalidMessage.reply(), "err: Invalid authentication message");
    assert_eq!(AuthError::SocketError.reply(), "err: Socket error during authentication");
    assert_eq!(
        AuthError::Disconnected.reply(),
        "err: Client disconnected during authentication"
    );
    assert_eq!(AuthError::Rejected("wrong password".to_string()).reply(), "err: wrong password");
}

#[test]
fn username_and_password_go_to_the_verifier() {
    let mut pre_auth = PreAuthCache::new();
    assert_eq!(socket_auth("alice", "hunter2", &mut pre_auth, 0), Ok(AuthStep::Verify));
}

#[test]
fn empty_username_without_token_is_refused() {
    let mut pre_auth = PreAuthCache::new();
    assert_eq!(socket_auth("", "hunter2", &mut pre_auth, 0), Err(AuthError::InvalidCredentials));
    assert_eq!(socket_auth("", "", &mut pre_auth, 0), Err(AuthError::InvalidCredentials));
}

#[test]
fn valid_token_authenticates_without_username() {
    let mut pre_auth = PreAuthCache::new();
    pre_auth.insert("abc".to_string(), user("bob"), 0);
    assert_eq!(socket_auth("", "abc", &mut pre_auth, 10000), Ok(AuthStep::Authenticated(user("bob"))));
}

#[test]
fn valid_token_wins_over_the_username() {
    let mut pre_auth = PreAuthCache::new();
    pre_auth.insert("abc".to_string(), user("bob"), 0);
    assert_eq!(socket_auth("alice", "abc", &mut pre_auth, 1), Ok(AuthStep::Authenticated(user("bob"))));
    assert_eq!(socket_auth("alice", "abc", &mut pre_auth, 2), Ok(AuthStep::Verify));
}

#[test]
fn token_authenticates_one_handshake_only() {
    let mut pre_auth = PreAuthCache::new();
    pre_auth.insert("abc".to_string(), user("bob"), 0);
    assert_eq!(socket_auth("", "abc", &mut pre_auth, 100), Ok(AuthStep::Authenticated(user("bob"))));
    assert_eq!(socket_auth("", "abc", &mut pre_auth, 101), Err(AuthError::InvalidCredentials));
}

#[test]
fn token_older_than_fifteen_seconds_does_not_authenticate() {
    let mut pre_auth = PreAuthCache::new();
    pre_auth.insert("abc".to_string(), user("bob"), 0);
    assert_eq!(socket_auth("", "abc", &mut pre_auth, 15000), Err(AuthError::InvalidCredentials));
    assert_eq!(socket_auth("", "abc", &mut pre_auth, 1), Err(AuthError::InvalidCredentials));
}

#[test]
fn verifier_answer_becomes_the_outcome() {
    assert_eq!(verdict(Ok(user("alice"))), Ok(user("alice")));
    assert_eq!(
        verdict(Err("wrong password".to_string())),
        Err(AuthError::Rejected("wrong password".to_string()))
    );
}

#[test]
fn handshake_ends_with_one_text_frame() {
    assert_eq!(handshake_reply(&Ok(user("alice"))), "authenticated");
    assert_eq!(handshake_reply(&Err(AuthError::Timeout)), "Authentication timeout");
    assert_eq!(handshake_reply(&Err(AuthError::InvalidCredentials)), "err: Invalid credentials");
    assert_eq!(
        handshake_reply(&Err(AuthError::Rejected("no such user".to_string()))),
        "err: no such user"
    );
}
