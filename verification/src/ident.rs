//! Syntactic validation of caller identities.

use vstd::prelude::*;

verus! {

/// Whether a character sequence is a syntactically valid account identity.
/// The exact character-level rules live in the validation routine of the
/// hosting platform's account-id library; all that matters here is that the
/// answer depends on the characters alone.
pub uninterp spec fn is_valid_identity(s: Seq<char>) -> bool;

/// Relies on `near_sdk::AccountId::validate`: accepts or rejects an account
/// identifier purely by its characters (length bounds, lower-case
/// alphanumeric parts, separator placement).
#[verifier::external_body]
pub(crate) fn validate_identity(s: &str) -> (r: bool)
    ensures
        r == is_valid_identity(s@),
{
    near_sdk::AccountId::validate(s).is_ok()
}

} // verus!
