use vstd::prelude::*;
use crate::catalogue::aggregate::{CatalogueDisplay, CatalogueVisibility};

verus! {

/// What happened to a catalogue.
#[derive(Debug, PartialEq)]
pub enum CatalogueEvent {
    CatalogueCreated { id: String, display: CatalogueDisplay, visibility: CatalogueVisibility },
    CatalogueDisplayUpdated { id: String, display: CatalogueDisplay },
    VisibilityUpdated { id: String, visibility: CatalogueVisibility },
    TemplateIdAdded { id: String, template_id: String },
    TemplateIdRemoved { id: String, template_id: String },
    CatalogueDeleted { id: String },
}

/// The name under which an event is stored: its variant's name.
pub open spec fn catalogue_event_type_text(e: CatalogueEvent) -> Seq<char> {
    match e {
        CatalogueEvent::CatalogueCreated { .. } => "CatalogueCreated"@,
        CatalogueEvent::CatalogueDisplayUpdated { .. } => "CatalogueDisplayUpdated"@,
        CatalogueEvent::VisibilityUpdated { .. } => "VisibilityUpdated"@,
        CatalogueEvent::TemplateIdAdded { .. } => "TemplateIdAdded"@,
        CatalogueEvent::TemplateIdRemoved { .. } => "TemplateIdRemoved"@,
        CatalogueEvent::CatalogueDeleted { .. } => "CatalogueDeleted"@,
    }
}

impl CatalogueEvent {
    /// The name under which the event is stored.
    pub fn event_type(&self) -> (r: String)
        ensures
            r@ == catalogue_event_type_text(*self),
    {
        let name = match self {
            CatalogueEvent::CatalogueCreated { .. } => "CatalogueCreated",
            CatalogueEvent::CatalogueDisplayUpdated { .. } => "CatalogueDisplayUpdated",
            CatalogueEvent::VisibilityUpdated { .. } => "VisibilityUpdated",
            CatalogueEvent::TemplateIdAdded { .. } => "TemplateIdAdded",
            CatalogueEvent::TemplateIdRemoved { .. } => "TemplateIdRemoved",
            CatalogueEvent::CatalogueDeleted { .. } => "CatalogueDeleted",
        };
        String::from_str(name)
    }

    /// The schema version of the event payload.
    pub fn event_version(&self) -> (r: String)
        ensures
            r@ == "1"@,
    {
        String::from_str("1")
    }
}

} // verus!
