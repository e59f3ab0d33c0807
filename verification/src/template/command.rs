use vstd::prelude::*;
use crate::json::Json;
use crate::template::types::{
    AttributeMap, Authorization, DataModel, Display, Expiration, HolderType, Status, Visibility,
};

verus! {

/// A request to create or change a template.
#[derive(Debug, PartialEq)]
pub enum TemplateCommand {
    CreateNewTemplate {
        template_id: String,
        source_template_id: Option<String>,
        title: String,
        display: Option<Display>,
        data_model: DataModel,
        holder_type: HolderType,
        tags: Option<Vec<String>>,
        status: Status,
        visibility: Visibility,
        credential_expiration: Option<Expiration>,
        description: Option<String>,
        type_: Vec<String>,
        schema: Option<Json>,
        schema_properties_attributes: Option<AttributeMap>,
        holder_authorization: Authorization,
    },
    UpdateTitle { template_id: String, title: String },
    UpdateDisplay { template_id: String, display: Display },
    UpdateTags { template_id: String, tags: Vec<String> },
    UpdateStatus { template_id: String, status: Status },
    UpdateVisibility { template_id: String, visibility: Visibility },
    UpdateDescription { template_id: String, description: String },
    UpdateType { template_id: String, type_: Vec<String> },
    UpdateSchema { template_id: String, schema: Json },
    UpdateSchemaPropertiesAttributes { template_id: String, schema_properties_attributes: AttributeMap },
    UpdateCredentialExpiration { template_id: String, credential_expiration: Expiration },
    UpdateHolderAuthorization { template_id: String, holder_authorization: Authorization },
    DeleteTemplate { template_id: String },
}

/// The name under which a command is authorized.
pub open spec fn operation_text(c: TemplateCommand) -> Seq<char> {
    match c {
        TemplateCommand::CreateNewTemplate { .. } => "library.templates.create"@,
        TemplateCommand::UpdateTitle { .. } => "library.templates.title.update"@,
        TemplateCommand::UpdateDisplay { .. } => "library.templates.display.update"@,
        TemplateCommand::UpdateTags { .. } => "library.templates.tags.update"@,
        TemplateCommand::UpdateStatus { .. } => "library.templates.status.update"@,
        TemplateCommand::UpdateVisibility { .. } => "library.templates.visibility.update"@,
        TemplateCommand::UpdateDescription { .. } => "library.templates.description.update"@,
        TemplateCommand::UpdateType { .. } => "library.templates.types.update"@,
        TemplateCommand::UpdateSchema { .. } => "library.templates.schema.update"@,
        TemplateCommand::UpdateSchemaPropertiesAttributes { .. } => "library.templates.schema_properties.update"@,
        TemplateCommand::UpdateCredentialExpiration { .. } => "library.templates.credential_expiration.update"@,
        TemplateCommand::UpdateHolderAuthorization { .. } => "library.templates.holder_authorization.update"@,
        TemplateCommand::DeleteTemplate { .. } => "library.templates.delete"@,
    }
}

impl TemplateCommand {
    /// The name under which the command is authorized.
    pub fn operation_name(&self) -> (r: &'static str)
        ensures
            r@ == operation_text(*self),
    {
        match self {
            TemplateCommand::CreateNewTemplate { .. } => "library.templates.create",
            TemplateCommand::UpdateTitle { .. } => "library.templates.title.update",
            TemplateCommand::UpdateDisplay { .. } => "library.templates.display.update",
            TemplateCommand::UpdateTags { .. } => "library.templates.tags.update",
            TemplateCommand::UpdateStatus { .. } => "library.templates.status.update",
            TemplateCommand::UpdateVisibility { .. } => "library.templates.visibility.update",
            TemplateCommand::UpdateDescription { .. } => "library.templates.description.update",
            TemplateCommand::UpdateType { .. } => "library.templates.types.update",
            TemplateCommand::UpdateSchema { .. } => "library.templates.schema.update",
            TemplateCommand::UpdateSchemaPropertiesAttributes { .. } => "library.templates.schema_properties.update",
            TemplateCommand::UpdateCredentialExpiration { .. } => "library.templates.credential_expiration.update",
            TemplateCommand::UpdateHolderAuthorization { .. } => "library.templates.holder_authorization.update",
            TemplateCommand::DeleteTemplate { .. } => "library.templates.delete",
        }
    }
}

} // verus!
