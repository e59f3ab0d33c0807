use vstd::prelude::*;
use crate::clock::now_rfc3339;
use crate::reissuance::command::ReissuanceCommand;
use crate::reissuance::error::ReissuanceError;
use crate::reissuance::event::ReissuanceEvent;

verus! {

/// The relation between a credential and the credential that reissues it.
#[derive(Debug, Clone, PartialEq, Eq, Default)]
pub struct Reissuance {
    pub reissuance_id: String,
    pub original_credential_id: String,
    pub new_credential_id: String,
    pub offer_id: String,
    pub credential_configuration_id: String,
    pub reason: Option<String>,
    pub trigger_type: Option<String>,
    pub triggered_by: Option<String>,
    pub status_action: Option<String>,
    /// When the relation was created, as RFC 3339 text; `None` until it is.
    pub created_at: Option<String>,
}

/// What reissuance `t` decides on command `c` at time `now`.
pub open spec fn reissuance_decided(
    t: Reissuance,
    c: ReissuanceCommand,
    now: Seq<char>,
    r: Result<Vec<ReissuanceEvent>, ReissuanceError>,
) -> bool {
    match c {
        ReissuanceCommand::CreateReissuance {
            reissuance_id,
            original_credential_id,
            new_credential_id,
            offer_id,
            credential_configuration_id,
            reason,
            trigger_type,
            triggered_by,
            status_action,
        } => if t.created_at is Some {
            r == Err::<Vec<ReissuanceEvent>, ReissuanceError>(ReissuanceError::AlreadyExists)
        } else {
            r matches Ok(events) && events@.len() == 1 && events@[0] == (ReissuanceEvent::ReissuanceCreated {
                reissuance_id,
                original_credential_id,
                new_credential_id,
                offer_id,
                credential_configuration_id,
                reason,
                trigger_type,
                triggered_by,
                status_action,
                created_at: events@[0]->created_at,
            }) && events@[0]->created_at@ == now
        },
    }
}

/// The relation after an event.
pub open spec fn reissuance_applied(t: Reissuance, e: ReissuanceEvent) -> Reissuance {
    match e {
        ReissuanceEvent::ReissuanceCreated {
            reissuance_id,
            original_credential_id,
            new_credential_id,
            offer_id,
            credential_configuration_id,
            reason,
            trigger_type,
            triggered_by,
            status_action,
            created_at,
        } => Reissuance {
            reissuance_id,
            original_credential_id,
            new_credential_id,
            offer_id,
            credential_configuration_id,
            reason,
            trigger_type,
            triggered_by,
            status_action,
            created_at: Some(created_at),
        },
    }
}

impl Reissuance {
    /// Decides a command at time `created_at`: a relation is recorded once.
    pub fn decide(&self, command: ReissuanceCommand, created_at: String) -> (r: Result<Vec<ReissuanceEvent>, ReissuanceError>)
        ensures
            reissuance_decided(*self, command, created_at@, r),
    {
        match command {
            ReissuanceCommand::CreateReissuance {
                reissuance_id,
                original_credential_id,
                new_credential_id,
                offer_id,
                credential_configuration_id,
                reason,
                trigger_type,
                triggered_by,
                status_action,
            } => {
                if self.created_at.is_some() {
                    return Err(ReissuanceError::AlreadyExists);
                }
                let mut events: Vec<ReissuanceEvent> = Vec::new();
                events.push(ReissuanceEvent::ReissuanceCreated {
                    reissuance_id,
                    original_credential_id,
                    new_credential_id,
                    offer_id,
                    credential_configuration_id,
                    reason,
                    trigger_type,
                    triggered_by,
                    status_action,
                    created_at,
                });
                Ok(events)
            },
        }
    }

    /// Handles a command now, as [`Reissuance::decide`] does at the current time.
    pub fn handle(&self, command: ReissuanceCommand) -> (r: Result<Vec<ReissuanceEvent>, ReissuanceError>)
        ensures
            exists|now: Seq<char>| reissuance_decided(*self, command, now, r),
    {
        let now = now_rfc3339();
        let r = self.decide(command, now);
        assert(reissuance_decided(*self, command, now@, r));
        r
    }

    /// Applies an event to the relation.
    pub fn apply(&mut self, event: ReissuanceEvent)
        ensures
            *final(self) == reissuance_applied(*old(self), event),
    {
        match event {
            ReissuanceEvent::ReissuanceCreated {
                reissuance_id,
                original_credential_id,
                new_credential_id,
                offer_id,
                credential_configuration_id,
                reason,
                trigger_type,
                triggered_by,
                status_action,
                created_at,
            } => {
                self.reissuance_id = reissuance_id;
                self.original_credential_id = original_credential_id;
                self.new_credential_id = new_credential_id;
                self.offer_id = offer_id;
                self.credential_configuration_id = credential_configuration_id;
                self.reason = reason;
                self.trigger_type = trigger_type;
                self.triggered_by = triggered_by;
                self.status_action = status_action;
                self.created_at = Some(created_at);
            },
        }
    }
}

/// A relation is recorded once: after its creation is applied, every further creation is
/// refused as already existing.
pub proof fn lemma_reissuance_created_once(
    t: Reissuance,
    e: ReissuanceEvent,
    c: ReissuanceCommand,
    now: Seq<char>,
    r: Result<Vec<ReissuanceEvent>, ReissuanceError>,
)
    requires
        reissuance_decided(reissuance_applied(t, e), c, now, r),
    ensures
        r == Err::<Vec<ReissuanceEvent>, ReissuanceError>(ReissuanceError::AlreadyExists),
{
}

/// Recording a relation keeps what its creation says: the identifiers of both credentials,
/// the offer, the configuration, the reason and triggers, and when it was created.
pub proof fn lemma_creation_records_the_relation(t: Reissuance, e: ReissuanceEvent)
    ensures
        e matches ReissuanceEvent::ReissuanceCreated {
            reissuance_id,
            original_credential_id,
            new_credential_id,
            offer_id,
            credential_configuration_id,
            reason,
            trigger_type,
            triggered_by,
            status_action,
            created_at,
        } ==> {
            let a = reissuance_applied(t, e);
            &&& a.reissuance_id == reissuance_id
            &&& a.original_credential_id == original_credential_id
            &&& a.new_credential_id == new_credential_id
            &&& a.offer_id == offer_id
            &&& a.credential_configuration_id == credential_configuration_id
            &&& a.reason == reason
            &&& a.trigger_type == trigger_type
            &&& a.triggered_by == triggered_by
            &&& a.status_action == status_action
            &&& a.created_at == Some(created_at)
        },
{
}

} // verus!
