//! The wall clock, reached through `chrono`. Timestamps enter the library
//! only as RFC 3339 text; nothing downstream depends on the moment itself.

use vstd::prelude::*;

use crate::event::field_ok;

verus! {

/// Relies on `chrono::Utc::now` and `chrono::DateTime::to_rfc3339`: the
/// current moment rendered as an RFC 3339 / ISO 8601 timestamp such as
/// `1996-12-19T16:39:57+00:00`. That format is built from digits and the
/// characters `-T:.+Z`, so it is never empty and contains neither a double
/// quote nor a backslash.
#[verifier::external_body]
pub fn now_rfc3339() -> (r: String)
    ensures
        field_ok(r@),
        r@.len() > 0,
{
    chrono::Utc::now().to_rfc3339()
}

} // verus!
