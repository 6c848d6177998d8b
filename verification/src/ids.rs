//! Fresh identifiers and timestamps.
//!
//! Every insert generates a fresh opaque 128-bit identifier in its canonical
//! textual form, and stamps the row with the current time as an RFC 3339
//! string.  Both values are nondeterministic, so the store's deterministic
//! command cores take them as arguments; these wrappers only produce them.

use vstd::prelude::*;

verus! {

/// Relies on `uuid::Uuid::new_v4` and its `Display` impl: a fresh random
/// version-4 UUID, rendered in the hyphenated format of 36 characters.
/// The value is random; nothing beyond its length is promised.
#[verifier::external_body]
pub fn fresh_id() -> (r: String)
    ensures
        r@.len() == 36,
{
    uuid::Uuid::new_v4().to_string()
}

/// Relies on `chrono::Utc::now` and `DateTime::to_rfc3339`: the current time
/// as an RFC 3339 string.  The value depends on the clock, so nothing is
/// promised about it.
#[verifier::external_body]
pub fn now_rfc3339() -> (r: String) {
    chrono::Utc::now().to_rfc3339()
}

} // verus!
