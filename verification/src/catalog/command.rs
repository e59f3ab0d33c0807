use vstd::prelude::*;
use crate::catalog::aggregate::{CatalogDisplay, CatalogVisibility};

verus! {

/// A request to create or change a catalog.
#[derive(Debug, PartialEq)]
pub enum CatalogCommand {
    CreateCatalog { catalog_id: String, display: CatalogDisplay, visibility: CatalogVisibility },
    ChangeCatalogAppearance { catalog_id: String, display: CatalogDisplay },
    MakeCatalogPublic { catalog_id: String },
    MakeCatalogPrivate { catalog_id: String },
    AddTemplateIds { catalog_id: String, template_ids: Vec<String> },
    RemoveTemplateIds { catalog_id: String, template_ids: Vec<String> },
    DeleteCatalog { catalog_id: String },
}

/// The name under which a command is authorized.
pub open spec fn catalog_operation_text(c: CatalogCommand) -> Seq<char> {
    match c {
        CatalogCommand::CreateCatalog { .. } => "library.catalogs.create"@,
        CatalogCommand::ChangeCatalogAppearance { .. } => "library.catalogs.appearance.update"@,
        CatalogCommand::MakeCatalogPublic { .. } => "library.catalogs.visibility.make_public"@,
        CatalogCommand::MakeCatalogPrivate { .. } => "library.catalogs.visibility.make_private"@,
        CatalogCommand::AddTemplateIds { .. } => "library.catalogs.templates.add"@,
        CatalogCommand::RemoveTemplateIds { .. } => "library.catalogs.templates.remove"@,
        CatalogCommand::DeleteCatalog { .. } => "library.catalogs.delete"@,
    }
}

impl CatalogCommand {
    /// The name under which the command is authorized.
    pub fn operation_name(&self) -> (r: &'static str)
        ensures
            r@ == catalog_operation_text(*self),
    {
        match self {
            CatalogCommand::CreateCatalog { .. } => "library.catalogs.create",
            CatalogCommand::ChangeCatalogAppearance { .. } => "library.catalogs.appearance.update",
            CatalogCommand::MakeCatalogPublic { .. } => "library.catalogs.visibility.make_public",
            CatalogCommand::MakeCatalogPrivate { .. } => "library.catalogs.visibility.make_private",
            CatalogCommand::AddTemplateIds { .. } => "library.catalogs.templates.add",
            CatalogCommand::RemoveTemplateIds { .. } => "library.catalogs.templates.remove",
            CatalogCommand::DeleteCatalog { .. } => "library.catalogs.delete",
        }
    }
}

} // verus!
