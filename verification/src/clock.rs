use vstd::prelude::*;

verus! {

/// Calls `chrono::Utc::now` and formats the instant with `to_rfc3339`. The current time is
/// not a function of anything the library holds, so nothing is stated of it.
#[verifier::external_body]
pub(crate) fn now_rfc3339() -> (r: String) {
    chrono::Utc::now().to_rfc3339()
}

} // verus!
