use vstd::prelude::*;

verus! {

/// What happened to a reissuance relation.
#[derive(Debug, PartialEq, Clone)]
pub enum ReissuanceEvent {
    ReissuanceCreated {
        reissuance_id: String,
        original_credential_id: String,
        new_credential_id: String,
        offer_id: String,
        credential_configuration_id: String,
        reason: Option<String>,
        trigger_type: Option<String>,
        triggered_by: Option<String>,
        status_action: Option<String>,
        /// When the relation was created, as RFC 3339 text.
        created_at: String,
    },
}

impl ReissuanceEvent {
    /// The name under which the event is stored: its variant's name.
    pub fn event_type(&self) -> (r: String)
        ensures
            r@ == "ReissuanceCreated"@,
    {
        String::from_str("ReissuanceCreated")
    }

    /// The schema version of the event payload.
    pub fn event_version(&self) -> (r: String)
        ensures
            r@ == "1"@,
    {
        String::from_str("1")
    }
}

} // verus!
