use vstd::prelude::*;

verus! {

/// A request about a reissuance relation.
#[derive(Debug, PartialEq, Clone)]
pub enum ReissuanceCommand {
    CreateReissuance {
        reissuance_id: String,
        original_credential_id: String,
        new_credential_id: String,
        offer_id: String,
        credential_configuration_id: String,
        reason: Option<String>,
        trigger_type: Option<String>,
        triggered_by: Option<String>,
        status_action: Option<String>,
    },
}

} // verus!
