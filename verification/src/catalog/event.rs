use vstd::prelude::*;
use crate::catalog::aggregate::{CatalogDisplay, CatalogVisibility};

verus! {

/// What happened to a catalog.
#[derive(Debug, PartialEq)]
pub enum CatalogEvent {
    CatalogCreated { id: String, display: CatalogDisplay, visibility: CatalogVisibility },
    CatalogAppearanceChanged { id: String, display: CatalogDisplay },
    CatalogMadePublic { id: String, visibility: CatalogVisibility },
    CatalogMadePrivate { id: String, visibility: CatalogVisibility },
    TemplateIdsAdded { id: String, template_ids: Vec<String> },
    TemplateIdsRemoved { id: String, template_ids: Vec<String> },
    CatalogDeleted { id: String },
}

/// The name under which an event is stored: its variant's name.
pub open spec fn catalog_event_type_text(e: CatalogEvent) -> Seq<char> {
    match e {
        CatalogEvent::CatalogCreated { .. } => "CatalogCreated"@,
        CatalogEvent::CatalogAppearanceChanged { .. } => "CatalogAppearanceChanged"@,
        CatalogEvent::CatalogMadePublic { .. } => "CatalogMadePublic"@,
        CatalogEvent::CatalogMadePrivate { .. } => "CatalogMadePrivate"@,
        CatalogEvent::TemplateIdsAdded { .. } => "TemplateIdsAdded"@,
        CatalogEvent::TemplateIdsRemoved { .. } => "TemplateIdsRemoved"@,
        CatalogEvent::CatalogDeleted { .. } => "CatalogDeleted"@,
    }
}

impl CatalogEvent {
    /// The name under which the event is stored.
    pub fn event_type(&self) -> (r: String)
        ensures
            r@ == catalog_event_type_text(*self),
    {
        let name = match self {
            CatalogEvent::CatalogCreated { .. } => "CatalogCreated",
            CatalogEvent::CatalogAppearanceChanged { .. } => "CatalogAppearanceChanged",
            CatalogEvent::CatalogMadePublic { .. } => "CatalogMadePublic",
            CatalogEvent::CatalogMadePrivate { .. } => "CatalogMadePrivate",
            CatalogEvent::TemplateIdsAdded { .. } => "TemplateIdsAdded",
            CatalogEvent::TemplateIdsRemoved { .. } => "TemplateIdsRemoved",
            CatalogEvent::CatalogDeleted { .. } => "CatalogDeleted",
        };
        String::from_str(name)
    }

    /// The schema version of the event payload.
    pub fn event_version(&self) -> (r: String)
        ensures
            r@ == "1"@,
    {
        String::from_str("1")
    }
}

} // verus!
