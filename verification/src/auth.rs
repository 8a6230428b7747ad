use crate::pre_auth::{
    accepts, after_consume, PreAuthCache, PreAuthEntry, PRE_AUTH_LIFETIME_MILLIS,
};
use crate::user::UserId;
use vstd::prelude::*;

verus! {

/// How long a client has to authenticate, the credential check included, in
/// milliseconds.
pub const HANDSHAKE_DEADLINE_MILLIS: u64 = 15000;

/// Mathematical value of an [`AuthError`].
pub enum AuthErrorView {
    Timeout,
    InvalidCredentials,
    Rejected(Seq<char>),
    InvalidMessage,
    SocketError,
    Disconnected,
}

impl AuthErrorView {
    /// What went wrong, in words.
    pub open spec fn message(self) -> Seq<char> {
        match self {
            AuthErrorView::Timeout => "Authentication timeout"@,
            AuthErrorView::InvalidCredentials => "Invalid credentials"@,
            AuthErrorView::Rejected(reason) => reason,
            AuthErrorView::InvalidMessage => "Invalid authentication message"@,
            AuthErrorView::SocketError => "Socket error during authentication"@,
            AuthErrorView::Disconnected => "Client disconnected during authentication"@,
        }
    }

    /// The text frame that tells the client: the bare message for a timeout,
    /// the message behind `err: ` for every other failure.
    pub open spec fn reply(self) -> Seq<char> {
        match self {
            AuthErrorView::Timeout => self.message(),
            _ => "err: "@ + self.message(),
        }
    }
}

/// Why a handshake failed.
#[derive(Debug, PartialEq, Eq)]
pub enum AuthError {
    /// The handshake did not finish before its deadline.
    Timeout,
    /// No token matched and no username was given.
    InvalidCredentials,
    /// The credential verifier refused, for the reason it gave.
    Rejected(String),
    /// A frame of the handshake was not text.
    InvalidMessage,
    /// The socket failed while the handshake read from it.
    SocketError,
    /// The client went away in the middle of the handshake.
    Disconnected,
}

impl View for AuthError {
    type V = AuthErrorView;

    open spec fn view(&self) -> AuthErrorView {
        match self {
            AuthError::Timeout => AuthErrorView::Timeout,
            AuthError::InvalidCredentials => AuthErrorView::InvalidCredentials,
            AuthError::Rejected(reason) => AuthErrorView::Rejected(reason@),
            AuthError::InvalidMessage => AuthErrorView::InvalidMessage,
            AuthError::SocketError => AuthErrorView::SocketError,
            AuthError::Disconnected => AuthErrorView::Disconnected,
        }
    }
}

impl AuthError {
    /// What went wrong, in words.
    pub fn message(&self) -> (text: String)
        ensures
            text@ == self@.message(),
    {
        match self {
            AuthError::Timeout => String::from_str("Authentication timeout"),
            AuthError::InvalidCredentials => String::from_str("Invalid credentials"),
            AuthError::Rejected(reason) => reason.clone(),
            AuthError::InvalidMessage => String::from_str("Invalid authentication message"),
            AuthError::SocketError => String::from_str("Socket error during authentication"),
            AuthError::Disconnected => String::from_str(
                "Client disconnected during authentication",
            ),
        }
    }

    /// The text frame that tells the client before the socket is closed.
    pub fn reply(&self) -> (text: String)
        ensures
            text@ == self@.reply(),
    {
        match self {
            AuthError::Timeout => self.message(),
            _ => {
                let mut text = String::from_str("err: ");
                text.append(self.message().as_str());
                text
            },
        }
    }
}

/// What one attempt to read a frame during the handshake brought.
#[derive(Debug, PartialEq, Eq)]
pub enum AuthRead {
    /// A text frame with this content.
    Text(String),
    /// A frame that is not text.
    NotText,
    /// The socket reported an error.
    Failed,
    /// The stream ended.
    Ended,
}

/// Takes the text out of one read of the handshake, or says why there is
/// none.
pub fn read_socket_auth_message(read: AuthRead) -> (text: Result<String, AuthError>)
    ensures
        match read {
            AuthRead::Text(content) => text matches Ok(got) && got@ == content@,
            AuthRead::NotText => text matches Err(AuthError::InvalidMessage),
            AuthRead::Failed => text matches Err(AuthError::SocketError),
            AuthRead::Ended => text matches Err(AuthError::Disconnected),
        },
{
    match read {
        AuthRead::Text(content) => Ok(content),
        AuthRead::NotText => Err(AuthError::InvalidMessage),
        AuthRead::Failed => Err(AuthError::SocketError),
        AuthRead::Ended => Err(AuthError::Disconnected),
    }
}

/// Mathematical value of an [`AuthStep`].
pub enum AuthStepView {
    Authenticated(Seq<char>),
    Verify,
}

/// How a handshake goes on once both frames are read.
#[derive(Debug, PartialEq, Eq)]
pub enum AuthStep {
    /// The second frame was a valid token: the client is this user.
    Authenticated(UserId),
    /// No token matched: the credential verifier decides on the two frames.
    Verify,
}

impl View for AuthStep {
    type V = AuthStepView;

    open spec fn view(&self) -> AuthStepView {
        match self {
            AuthStep::Authenticated(user) => AuthStepView::Authenticated(user@),
            AuthStep::Verify => AuthStepView::Verify,
        }
    }
}

/// The value of the outcome of [`socket_auth`].
pub open spec fn step_view(step: Result<AuthStep, AuthError>) -> Result<AuthStepView, AuthErrorView> {
    match step {
        Ok(step) => Ok(step@),
        Err(error) => Err(error@),
    }
}

/// What a username and a password-or-token lead to at `now`, given the
/// recorded tokens: a valid token names the user; without one a username
/// goes to the credential verifier, and an empty username is refused.
pub open spec fn decide(
    entries: Map<Seq<char>, PreAuthEntry>,
    username: Seq<char>,
    password: Seq<char>,
    now: u64,
) -> Result<AuthStepView, AuthErrorView> {
    if accepts(entries, password, now) {
        Ok(AuthStepView::Authenticated(entries[password].user))
    } else if username.len() > 0 {
        Ok(AuthStepView::Verify)
    } else {
        Err(AuthErrorView::InvalidCredentials)
    }
}

/// Decides a handshake once both frames are read. Expired tokens are dropped;
/// if the second frame is a token that is still valid it is used up and names
/// the user. Otherwise a non-empty username sends the pair to the credential
/// verifier, and an empty one is refused.
pub fn socket_auth(username: &str, password: &str, pre_auth: &mut PreAuthCache, now: u64) -> (step:
    Result<AuthStep, AuthError>)
    ensures
        step_view(step) == decide(old(pre_auth)@, username@, password@, now),
        final(pre_auth)@ == after_consume(old(pre_auth)@, password@, now),
{
    match pre_auth.consume(password, now) {
        Some(user) => Ok(AuthStep::Authenticated(user)),
        None => {
            if !username.is_empty() {
                Ok(AuthStep::Verify)
            } else {
                Err(AuthError::InvalidCredentials)
            }
        },
    }
}

/// Turns the credential verifier's answer into the handshake's outcome: the
/// user it names, or its reason for refusing.
pub fn verdict(answer: Result<UserId, String>) -> (outcome: Result<UserId, AuthError>)
    ensures
        match answer {
            Ok(user) => outcome matches Ok(named) && named@ == user@,
            Err(reason) => outcome matches Err(AuthError::Rejected(given)) && given@ == reason@,
        },
{
    match answer {
        Ok(user) => Ok(user),
        Err(reason) => Err(AuthError::Rejected(reason)),
    }
}

/// The text frame that ends the handshake: `authenticated` for a user, the
/// error's reply otherwise.
pub fn handshake_reply(outcome: &Result<UserId, AuthError>) -> (text: String)
    ensures
        text@ == match outcome {
            Ok(_) => "authenticated"@,
            Err(error) => error@.reply(),
        },
{
    match outcome {
        Ok(_) => String::from_str("authenticated"),
        Err(error) => error.reply(),
    }
}

/// A token opens one handshake only: once a handshake has presented `token`,
/// a later one that presents it with an empty username is refused, unless
/// the token was recorded again in between.
pub proof fn lemma_token_opens_one_handshake(
    entries: Map<Seq<char>, PreAuthEntry>,
    token: Seq<char>,
    first: u64,
    second: u64,
)
    ensures
        decide(after_consume(entries, token, first), Seq::<char>::empty(), token, second) == Err::<
            AuthStepView,
            AuthErrorView,
        >(AuthErrorView::InvalidCredentials),
{
}

/// A token that is fifteen seconds old or older never authenticates: the
/// handshake then goes by the username alone.
pub proof fn lemma_old_token_does_not_authenticate(
    entries: Map<Seq<char>, PreAuthEntry>,
    username: Seq<char>,
    token: Seq<char>,
    now: u64,
)
    requires
        entries.dom().contains(token),
        now - entries[token].created >= PRE_AUTH_LIFETIME_MILLIS,
    ensures
        !(decide(entries, username, token, now) matches Ok(AuthStepView::Authenticated(_))),
{
}

} // verus!
