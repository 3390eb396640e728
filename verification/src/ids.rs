//! Server-side id generation: a freshly drawn random identifier.

use vstd::prelude::*;

verus! {

/// Relies on `uuid::Uuid::new_v4` and its `Display` impl: a version-4 uuid
/// rendered in the hyphenated lowercase form, which is always 36 characters.
/// The value is random, so nothing else holds of it; in particular two calls
/// may, with vanishing probability, return the same string.
#[verifier::external_body]
pub(crate) fn fresh_id() -> (r: String)
    ensures
        r@.len() == 36,
{
    uuid::Uuid::new_v4().to_string()
}

} // verus!
