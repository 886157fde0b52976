//! A session-authenticated resource API core: account registration and login
//! with hashed credentials, server-side sessions with sliding inactivity
//! expiry, login-attempt rate limiting, an authorization gate, and a
//! project store with optimistic concurrency control whose rows record the
//! principal that created them.
//!
//! All state is held in plain in-memory structures so that every rule can be
//! stated and proved; password hashing, token generation and email validation
//! are performed by outside crates behind a small set of trusted wrappers.

pub mod crypto;
pub mod errors;
pub mod gateway;
pub mod ids;
pub mod ratelimit;
pub mod sessions;
pub mod store;
pub mod validate;
