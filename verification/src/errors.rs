//! The error taxonomy and the mapper from error kinds to external status
//! signals. The mapper is a pure function; no internal detail beyond the
//! stable kind crosses the boundary.

use vstd::prelude::*;

verus! {

/// Every failure kind the core can produce.
#[derive(Debug, Clone, Copy, PartialEq, Eq, Structural)]
pub enum StoreError {
    /// Password hashing itself failed (infrastructure fault).
    HashError,
    /// No account matches the given email.
    UserNotFound,
    /// No project matches the given id.
    ProjectNotFound,
    /// An account with this email already exists.
    DuplicateAccount,
    /// The stored password hash cannot be parsed (data corruption).
    MalformedStoreHash,
    /// The password does not verify against the stored hash.
    IncorrectPassword,
    /// A fresh project id collided with an existing one.
    FailedProjectCreation,
    /// The supplied reference timestamp is stale (optimistic concurrency).
    Conflict,
    /// The login-attempt ceiling for this client was exceeded.
    RateLimited,
    /// A fresh session token collided with an existing one.
    SessionError,
    /// The request payload failed validation.
    InvalidInput,
    /// No valid session authorizes this operation.
    Unauthenticated,
}

/// The external status signal an error kind maps to.
pub open spec fn spec_status(e: StoreError) -> u16 {
    match e {
        StoreError::UserNotFound => 401,
        StoreError::IncorrectPassword => 401,
        StoreError::Unauthenticated => 401,
        StoreError::MalformedStoreHash => 400,
        StoreError::ProjectNotFound => 400,
        StoreError::DuplicateAccount => 400,
        StoreError::FailedProjectCreation => 400,
        StoreError::Conflict => 400,
        StoreError::InvalidInput => 400,
        StoreError::RateLimited => 429,
        StoreError::HashError => 500,
        StoreError::SessionError => 500,
    }
}

/// The stable external message of an error kind: a short fixed phrase per
/// kind, never internal detail.
pub open spec fn spec_message(e: StoreError) -> Seq<char> {
    match e {
        StoreError::UserNotFound => "User not found"@,
        StoreError::IncorrectPassword => "Incorrect Password"@,
        StoreError::Unauthenticated => "Not logged in"@,
        StoreError::MalformedStoreHash => "Malformed store hash"@,
        StoreError::ProjectNotFound => "Project not found"@,
        StoreError::DuplicateAccount => "Account already exists"@,
        StoreError::FailedProjectCreation => "Failed to create project"@,
        StoreError::Conflict => "Project was modified concurrently"@,
        StoreError::InvalidInput => "Invalid input"@,
        StoreError::RateLimited => "Too many attempts"@,
        StoreError::HashError => "Password hashing failed"@,
        StoreError::SessionError => "Session error"@,
    }
}

impl StoreError {
    /// The stable short message for this error kind; nothing beyond the
    /// fixed phrase crosses the boundary.
    pub fn message(&self) -> (r: &'static str)
        ensures
            r@ == spec_message(*self),
    {
        match self {
            StoreError::UserNotFound => "User not found",
            StoreError::IncorrectPassword => "Incorrect Password",
            StoreError::Unauthenticated => "Not logged in",
            StoreError::MalformedStoreHash => "Malformed store hash",
            StoreError::ProjectNotFound => "Project not found",
            StoreError::DuplicateAccount => "Account already exists",
            StoreError::FailedProjectCreation => "Failed to create project",
            StoreError::Conflict => "Project was modified concurrently",
            StoreError::InvalidInput => "Invalid input",
            StoreError::RateLimited => "Too many attempts",
            StoreError::HashError => "Password hashing failed",
            StoreError::SessionError => "Session error",
        }
    }

    /// Maps this error kind to its external status signal: authentication
    /// failures to 401, client-correctable failures to 400, rate limiting
    /// to 429, infrastructure faults to 500.
    pub fn status_code(&self) -> (r: u16)
        ensures
            r == spec_status(*self),
    {
        match self {
            StoreError::UserNotFound => 401,
            StoreError::IncorrectPassword => 401,
            StoreError::Unauthenticated => 401,
            StoreError::MalformedStoreHash => 400,
            StoreError::ProjectNotFound => 400,
            StoreError::DuplicateAccount => 400,
            StoreError::FailedProjectCreation => 400,
            StoreError::Conflict => 400,
            StoreError::InvalidInput => 400,
            StoreError::RateLimited => 429,
            StoreError::HashError => 500,
            StoreError::SessionError => 500,
        }
    }
}

} // verus!
