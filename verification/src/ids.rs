//! Trusted boundary to the identifier-generating crate. Project ids and
//! session tokens are freshly drawn random 128-bit values; nothing can be
//! promised of them, so every verified caller handles every possible value,
//! collisions included.

use vstd::prelude::*;

verus! {

/// Relies on `uuid::Uuid::new_v4`: a freshly drawn random identifier,
/// carried as its 128-bit value. The result is random, so no clause is
/// stated; callers must cope with any value coming back.
#[verifier::external_body]
pub(crate) fn fresh_id() -> u128 {
    uuid::Uuid::new_v4().as_u128()
}

} // verus!
