//! The verified core of a small server-administration dashboard: two-factor
//! login (a shadow-file password, then a WebAuthn security key), the
//! bookkeeping of pending WebAuthn challenges, session tokens and their
//! signing secret, and the decisions of the service, log and statistics
//! endpoints.
//!
//! The HTTP server, file and D-Bus access, locking and JSON live outside
//! this crate and hand plain values to it.

pub mod text;
pub mod digits;
pub mod replies;
pub mod pending;
pub mod session;
pub mod secret;
pub mod credentials;
pub mod token;
pub mod ceremony;
pub mod services;
pub mod stats;
