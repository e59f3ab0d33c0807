use vstd::prelude::*;

verus! {

/// What a reissuance policy is asked to allow.
#[derive(Debug, Clone, PartialEq, Eq)]
pub struct ReissuancePolicyRequest {
    pub original_credential_id: String,
    pub credential_configuration_id: String,
    pub triggered_by: Option<String>,
    pub trigger_type: Option<String>,
}

/// Why a reissuance policy refused a request.
#[derive(Debug, Clone, Copy, PartialEq, Eq, Structural)]
pub enum ReissuancePolicyError {
    NotAllowed,
}

impl ReissuancePolicyError {
    /// The message that the error displays.
    pub fn message(&self) -> (r: String)
        ensures
            r@ == "Reissuance is not allowed"@,
    {
        String::from_str("Reissuance is not allowed")
    }
}

/// Decides whether a credential may be reissued.
pub trait ReissuancePolicy {
    fn authorize(&self, request: &ReissuancePolicyRequest) -> Result<(), ReissuancePolicyError>;
}

/// The policy that allows every reissuance.
#[derive(Debug, Default)]
pub struct NoOpReissuancePolicy;

impl ReissuancePolicy for NoOpReissuancePolicy {
    fn authorize(&self, request: &ReissuancePolicyRequest) -> (r: Result<(), ReissuancePolicyError>)
        ensures
            r is Ok,
    {
        Ok(())
    }
}

} // verus!
