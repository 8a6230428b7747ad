//! Core of a push-notification fan-out server: the per-user subscriber index,
//! the pre-authentication cache, the handshake, the session with its
//! debouncer, and the routing of bus events. Every item is verified. The
//! caller owns the sockets, the bus, the database and the credential
//! verifier: it tells the library what happened and does what the library
//! answers. Times are milliseconds as a [`clock::Clock`] reads them.

pub mod auth;
pub mod bus;
pub mod clock;
pub mod connection;
pub mod debounce;
pub mod event;
pub mod message;
pub mod metrics;
pub mod pre_auth;
pub mod session;
pub mod user;
