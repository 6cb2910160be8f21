//! Fresh record identities.

use vstd::prelude::*;

verus! {

/// Draws a random identity from `uuid::Uuid::new_v4` and renders it with the
/// crate's `Display`, which writes the hyphenated form: 36 characters.
/// Nothing else is claimed: two calls may return anything, equal or not.
#[verifier::external_body]
pub(crate) fn random_id() -> (id: String)
    ensures
        id@.len() == 36,
{
    uuid::Uuid::new_v4().to_string()
}

} // verus!
