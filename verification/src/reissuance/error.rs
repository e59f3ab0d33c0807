use vstd::prelude::*;

verus! {

/// Why a reissuance command was refused.
#[derive(Debug, Clone, PartialEq, Eq)]
pub enum ReissuanceError {
    AlreadyExists,
    BuildReissuanceError(String),
}

/// The message of an error, given the text it carries (if any).
pub open spec fn reissuance_error_message(e: ReissuanceError) -> Seq<char> {
    match e {
        ReissuanceError::AlreadyExists => "Reissuance relation already exists"@,
        ReissuanceError::BuildReissuanceError(s) => "Failed to create reissuance: "@ + s@,
    }
}

impl ReissuanceError {
    /// The message that the error displays.
    pub fn message(&self) -> (r: String)
        ensures
            r@ == reissuance_error_message(*self),
    {
        match self {
            ReissuanceError::AlreadyExists => String::from_str("Reissuance relation already exists"),
            ReissuanceError::BuildReissuanceError(s) => String::from_str("Failed to create reissuance: ").concat(s.as_str()),
        }
    }
}

} // verus!
