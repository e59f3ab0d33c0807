use vstd::prelude::*;
use crate::json::Json;
use crate::template::types::{
    AttributeMap, Authorization, DataModel, Display, Expiration, HolderType, Status, Visibility,
};

verus! {

/// What happened to a template.
#[derive(Debug, PartialEq)]
pub enum TemplateEvent {
    TemplateCreated {
        template_id: String,
        source_template_id: Option<String>,
        title: String,
        display: Option<Display>,
        data_model: DataModel,
        holder_type: HolderType,
        modified_at: String,
        tags: Option<Vec<String>>,
        status: Status,
        visibility: Visibility,
        credential_expiration: Expiration,
        description: Option<String>,
        type_: Vec<String>,
        schema: Option<Json>,
        schema_properties_attributes: Option<AttributeMap>,
        holder_authorization: Authorization,
    },
    TitleUpdated { template_id: String, title: String, modified_at: String },
    DisplayUpdated { template_id: String, display: Display, modified_at: String },
    TagsUpdated { template_id: String, tags: Vec<String>, modified_at: String },
    StatusUpdated { template_id: String, status: Status, modified_at: String },
    VisibilityUpdated { template_id: String, visibility: Visibility, modified_at: String },
    DescriptionUpdated { template_id: String, description: String, modified_at: String },
    TypeUpdated { template_id: String, type_: Vec<String>, modified_at: String },
    SchemaUpdated { template_id: String, schema: Json, modified_at: String },
    SchemaPropertiesAttributesUpdated {
        template_id: String,
        schema_properties_attributes: AttributeMap,
        modified_at: String,
    },
    CredentialExpirationUpdated { template_id: String, credential_expiration: Expiration, modified_at: String },
    HolderAuthorizationUpdated { template_id: String, holder_authorization: Authorization, modified_at: String },
    TemplateDeleted { template_id: String },
}

/// The name under which an event is stored: its variant's name.
pub open spec fn event_type_text(e: TemplateEvent) -> Seq<char> {
    match e {
        TemplateEvent::TemplateCreated { .. } => "TemplateCreated"@,
        TemplateEvent::TitleUpdated { .. } => "TitleUpdated"@,
        TemplateEvent::DisplayUpdated { .. } => "DisplayUpdated"@,
        TemplateEvent::TagsUpdated { .. } => "TagsUpdated"@,
        TemplateEvent::StatusUpdated { .. } => "StatusUpdated"@,
        TemplateEvent::VisibilityUpdated { .. } => "VisibilityUpdated"@,
        TemplateEvent::DescriptionUpdated { .. } => "DescriptionUpdated"@,
        TemplateEvent::TypeUpdated { .. } => "TypeUpdated"@,
        TemplateEvent::SchemaUpdated { .. } => "SchemaUpdated"@,
        TemplateEvent::SchemaPropertiesAttributesUpdated { .. } => "SchemaPropertiesAttributesUpdated"@,
        TemplateEvent::CredentialExpirationUpdated { .. } => "CredentialExpirationUpdated"@,
        TemplateEvent::HolderAuthorizationUpdated { .. } => "HolderAuthorizationUpdated"@,
        TemplateEvent::TemplateDeleted { .. } => "TemplateDeleted"@,
    }
}

impl TemplateEvent {
    /// The name under which the event is stored.
    pub fn event_type(&self) -> (r: String)
        ensures
            r@ == event_type_text(*self),
    {
        let name = match self {
            TemplateEvent::TemplateCreated { .. } => "TemplateCreated",
            TemplateEvent::TitleUpdated { .. } => "TitleUpdated",
            TemplateEvent::DisplayUpdated { .. } => "DisplayUpdated",
            TemplateEvent::TagsUpdated { .. } => "TagsUpdated",
            TemplateEvent::StatusUpdated { .. } => "StatusUpdated",
            TemplateEvent::VisibilityUpdated { .. } => "VisibilityUpdated",
            TemplateEvent::DescriptionUpdated { .. } => "DescriptionUpdated",
            TemplateEvent::TypeUpdated { .. } => "TypeUpdated",
            TemplateEvent::SchemaUpdated { .. } => "SchemaUpdated",
            TemplateEvent::SchemaPropertiesAttributesUpdated { .. } => "SchemaPropertiesAttributesUpdated",
            TemplateEvent::CredentialExpirationUpdated { .. } => "CredentialExpirationUpdated",
            TemplateEvent::HolderAuthorizationUpdated { .. } => "HolderAuthorizationUpdated",
            TemplateEvent::TemplateDeleted { .. } => "TemplateDeleted",
        };
        String::from_str(name)
    }

    /// The schema version of the event payload.
    pub fn event_version(&self) -> (r: String)
        ensures
            r@ == "1"@,
    {
        String::from_str("1")
    }
}

} // verus!
