use vstd::prelude::*;

verus! {

/// Why a template command was refused.
#[derive(Debug, Clone, PartialEq, Eq)]
pub enum TemplateError {
    InvalidSchema(String),
    InvalidStatusTransition(String),
    InvalidStatusOnCreate,
    InvalidSchemaPropertiesAttributes(String),
    NonRemovablePropertyViolation(String),
    DisallowedOpenBadgesProperties(String),
    MissingRequiredOpenBadgesProperties(String),
    InvalidRequiredPropertyType(String),
    InvalidOpenBadgesPropertyType(String),
    MissingTitle,
    ArchivedTemplateImmutable,
    DeletedTemplateTerminal,
    ArchiveBeforeDeleteRequired,
    InvalidExpiration(String),
    InvalidType(String),
    SchemaPropertiesAttributesNotAllowed,
    DuplicateSchemaPropertiesAttributeKey(String),
    DraftTemplateCannotBePublic,
    SourceTemplateNotFound(String),
    TemplateIdMissing,
    TemplateNotFound(String),
}

/// The mathematical value of a [`TemplateError`].
pub enum TemplateErrorView {
    InvalidSchema(Seq<char>),
    InvalidStatusTransition(Seq<char>),
    InvalidStatusOnCreate,
    InvalidSchemaPropertiesAttributes(Seq<char>),
    NonRemovablePropertyViolation(Seq<char>),
    DisallowedOpenBadgesProperties(Seq<char>),
    MissingRequiredOpenBadgesProperties(Seq<char>),
    InvalidRequiredPropertyType(Seq<char>),
    InvalidOpenBadgesPropertyType(Seq<char>),
    MissingTitle,
    ArchivedTemplateImmutable,
    DeletedTemplateTerminal,
    ArchiveBeforeDeleteRequired,
    InvalidExpiration(Seq<char>),
    InvalidType(Seq<char>),
    SchemaPropertiesAttributesNotAllowed,
    DuplicateSchemaPropertiesAttributeKey(Seq<char>),
    DraftTemplateCannotBePublic,
    SourceTemplateNotFound(Seq<char>),
    TemplateIdMissing,
    TemplateNotFound(Seq<char>),
    /// Stands, in a decision, for the refusal of a schema that the JSON Schema validator
    /// rejects: an `InvalidSchema` with whatever text the validator gave. No error's view is
    /// this value.
    SchemaRejected,
}

impl View for TemplateError {
    type V = TemplateErrorView;

    open spec fn view(&self) -> TemplateErrorView {
        match self {
            TemplateError::InvalidSchema(s) => TemplateErrorView::InvalidSchema(s@),
            TemplateError::InvalidStatusTransition(s) => TemplateErrorView::InvalidStatusTransition(s@),
            TemplateError::InvalidStatusOnCreate => TemplateErrorView::InvalidStatusOnCreate,
            TemplateError::InvalidSchemaPropertiesAttributes(s) => TemplateErrorView::InvalidSchemaPropertiesAttributes(s@),
            TemplateError::NonRemovablePropertyViolation(s) => TemplateErrorView::NonRemovablePropertyViolation(s@),
            TemplateError::DisallowedOpenBadgesProperties(s) => TemplateErrorView::DisallowedOpenBadgesProperties(s@),
            TemplateError::MissingRequiredOpenBadgesProperties(s) => TemplateErrorView::MissingRequiredOpenBadgesProperties(s@),
            TemplateError::InvalidRequiredPropertyType(s) => TemplateErrorView::InvalidRequiredPropertyType(s@),
            TemplateError::InvalidOpenBadgesPropertyType(s) => TemplateErrorView::InvalidOpenBadgesPropertyType(s@),
            TemplateError::MissingTitle => TemplateErrorView::MissingTitle,
            TemplateError::ArchivedTemplateImmutable => TemplateErrorView::ArchivedTemplateImmutable,
            TemplateError::DeletedTemplateTerminal => TemplateErrorView::DeletedTemplateTerminal,
            TemplateError::ArchiveBeforeDeleteRequired => TemplateErrorView::ArchiveBeforeDeleteRequired,
            TemplateError::InvalidExpiration(s) => TemplateErrorView::InvalidExpiration(s@),
            TemplateError::InvalidType(s) => TemplateErrorView::InvalidType(s@),
            TemplateError::SchemaPropertiesAttributesNotAllowed => TemplateErrorView::SchemaPropertiesAttributesNotAllowed,
            TemplateError::DuplicateSchemaPropertiesAttributeKey(s) => TemplateErrorView::DuplicateSchemaPropertiesAttributeKey(s@),
            TemplateError::DraftTemplateCannotBePublic => TemplateErrorView::DraftTemplateCannotBePublic,
            TemplateError::SourceTemplateNotFound(s) => TemplateErrorView::SourceTemplateNotFound(s@),
            TemplateError::TemplateIdMissing => TemplateErrorView::TemplateIdMissing,
            TemplateError::TemplateNotFound(s) => TemplateErrorView::TemplateNotFound(s@),
        }
    }
}

/// Whether the error view `v` is the refusal `e` stands for: any `InvalidSchema` for a schema
/// the validator rejected, else `e` itself.
pub open spec fn fits(v: TemplateErrorView, e: TemplateErrorView) -> bool {
    match e {
        TemplateErrorView::SchemaRejected => v is InvalidSchema,
        _ => v == e,
    }
}

/// The view of a result whose success carries nothing.
pub open spec fn unit_result_view(r: Result<(), TemplateError>) -> Result<(), TemplateErrorView> {
    match r {
        Ok(()) => Ok(()),
        Err(e) => Err(e@),
    }
}

/// The message that an error displays.
pub open spec fn error_message(e: TemplateErrorView) -> Seq<char> {
    match e {
        TemplateErrorView::InvalidSchema(s) => "Invalid JSON Schema: "@ + s,
        TemplateErrorView::SchemaRejected => "Invalid JSON Schema: "@,
        TemplateErrorView::InvalidStatusTransition(s) => "Invalid status transition: "@ + s,
        TemplateErrorView::InvalidStatusOnCreate => "Invalid status on create: only Draft or Published are allowed"@,
        TemplateErrorView::InvalidSchemaPropertiesAttributes(s) => "Invalid schema_properties_attributes key(s): "@ + s,
        TemplateErrorView::NonRemovablePropertyViolation(s) => "Cannot remove immutable schema properties: "@ + s,
        TemplateErrorView::DisallowedOpenBadgesProperties(s) => "Disallowed OpenBadges 3.0 schema properties: "@ + s,
        TemplateErrorView::MissingRequiredOpenBadgesProperties(s) => "Missing required OpenBadges 3.0 schema properties: "@ + s,
        TemplateErrorView::InvalidRequiredPropertyType(s) => "Invalid type for required OpenBadges 3.0 schema properties: "@ + s,
        TemplateErrorView::InvalidOpenBadgesPropertyType(s) => "Invalid type or format for OpenBadges 3.0 schema properties: "@ + s,
        TemplateErrorView::MissingTitle => "A title is required when creating or updating a template"@,
        TemplateErrorView::ArchivedTemplateImmutable => "Archived templates are immutable except for status changes"@,
        TemplateErrorView::DeletedTemplateTerminal => "Deleted templates are terminal and cannot be changed"@,
        TemplateErrorView::ArchiveBeforeDeleteRequired => "Published templates must be archived before they can be deleted"@,
        TemplateErrorView::InvalidExpiration(s) => "Invalid expiration value: "@ + s,
        TemplateErrorView::InvalidType(s) => "Invalid type: "@ + s,
        TemplateErrorView::SchemaPropertiesAttributesNotAllowed => "schemaPropertiesAttributes are not allowed for W3C VC 1.1 templates"@,
        TemplateErrorView::DuplicateSchemaPropertiesAttributeKey(s) => "Duplicate schemaPropertiesAttributes key after trimming: `"@ + s + "`"@,
        TemplateErrorView::DraftTemplateCannotBePublic => "A template must not be in \"Draft\" stage when making it public"@,
        TemplateErrorView::SourceTemplateNotFound(s) => "No Source Template found with id: `"@ + s + "`"@,
        TemplateErrorView::TemplateIdMissing => "The `id` field is required to update a template."@,
        TemplateErrorView::TemplateNotFound(s) => "No Template found with id: `"@ + s + "`"@,
    }
}

impl TemplateError {
    /// The message that the error displays.
    pub fn message(&self) -> (r: String)
        ensures
            r@ == error_message(self@),
    {
        match self {
            TemplateError::InvalidSchema(s) => String::from_str("Invalid JSON Schema: ").concat(s.as_str()),
            TemplateError::InvalidStatusTransition(s) => String::from_str("Invalid status transition: ").concat(s.as_str()),
            TemplateError::InvalidStatusOnCreate => String::from_str("Invalid status on create: only Draft or Published are allowed"),
            TemplateError::InvalidSchemaPropertiesAttributes(s) => String::from_str("Invalid schema_properties_attributes key(s): ").concat(s.as_str()),
            TemplateError::NonRemovablePropertyViolation(s) => String::from_str("Cannot remove immutable schema properties: ").concat(s.as_str()),
            TemplateError::DisallowedOpenBadgesProperties(s) => String::from_str("Disallowed OpenBadges 3.0 schema properties: ").concat(s.as_str()),
            TemplateError::MissingRequiredOpenBadgesProperties(s) => String::from_str("Missing required OpenBadges 3.0 schema properties: ").concat(s.as_str()),
            TemplateError::InvalidRequiredPropertyType(s) => String::from_str("Invalid type for required OpenBadges 3.0 schema properties: ").concat(s.as_str()),
            TemplateError::InvalidOpenBadgesPropertyType(s) => String::from_str("Invalid type or format for OpenBadges 3.0 schema properties: ").concat(s.as_str()),
            TemplateError::MissingTitle => String::from_str("A title is required when creating or updating a template"),
            TemplateError::ArchivedTemplateImmutable => String::from_str("Archived templates are immutable except for status changes"),
            TemplateError::DeletedTemplateTerminal => String::from_str("Deleted templates are terminal and cannot be changed"),
            TemplateError::ArchiveBeforeDeleteRequired => String::from_str("Published templates must be archived before they can be deleted"),
            TemplateError::InvalidExpiration(s) => String::from_str("Invalid expiration value: ").concat(s.as_str()),
            TemplateError::InvalidType(s) => String::from_str("Invalid type: ").concat(s.as_str()),
            TemplateError::SchemaPropertiesAttributesNotAllowed => String::from_str("schemaPropertiesAttributes are not allowed for W3C VC 1.1 templates"),
            TemplateError::DuplicateSchemaPropertiesAttributeKey(s) => String::from_str("Duplicate schemaPropertiesAttributes key after trimming: `").concat(s.as_str()).concat("`"),
            TemplateError::DraftTemplateCannotBePublic => String::from_str("A template must not be in \"Draft\" stage when making it public"),
            TemplateError::SourceTemplateNotFound(s) => String::from_str("No Source Template found with id: `").concat(s.as_str()).concat("`"),
            TemplateError::TemplateIdMissing => String::from_str("The `id` field is required to update a template."),
            TemplateError::TemplateNotFound(s) => String::from_str("No Template found with id: `").concat(s.as_str()).concat("`"),
        }
    }
}

} // verus!
