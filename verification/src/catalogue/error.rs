use vstd::prelude::*;

verus! {

/// Why a catalogue command was refused.
#[derive(Debug, Clone, PartialEq, Eq)]
pub enum CatalogueError {
    DuplicateName(String),
    TemplateNotFound(String),
    TemplateAlreadyInCatalogue(String),
    TemplateNotInCatalogue(String),
}

/// The mathematical value of a [`CatalogueError`].
pub enum CatalogueErrorView {
    DuplicateName(Seq<char>),
    TemplateNotFound(Seq<char>),
    TemplateAlreadyInCatalogue(Seq<char>),
    TemplateNotInCatalogue(Seq<char>),
}

impl View for CatalogueError {
    type V = CatalogueErrorView;

    open spec fn view(&self) -> CatalogueErrorView {
        match self {
            CatalogueError::DuplicateName(s) => CatalogueErrorView::DuplicateName(s@),
            CatalogueError::TemplateNotFound(s) => CatalogueErrorView::TemplateNotFound(s@),
            CatalogueError::TemplateAlreadyInCatalogue(s) => CatalogueErrorView::TemplateAlreadyInCatalogue(s@),
            CatalogueError::TemplateNotInCatalogue(s) => CatalogueErrorView::TemplateNotInCatalogue(s@),
        }
    }
}

/// The message that an error displays.
pub open spec fn catalogue_error_message(e: CatalogueErrorView) -> Seq<char> {
    match e {
        CatalogueErrorView::DuplicateName(s) => "Catalogue name already exists: "@ + s,
        CatalogueErrorView::TemplateNotFound(s) => "Template not found: "@ + s,
        CatalogueErrorView::TemplateAlreadyInCatalogue(s) => "Template already in catalogue: "@ + s,
        CatalogueErrorView::TemplateNotInCatalogue(s) => "Template not in catalogue: "@ + s,
    }
}

impl CatalogueError {
    /// The message that the error displays.
    pub fn message(&self) -> (r: String)
        ensures
            r@ == catalogue_error_message(self@),
    {
        match self {
            CatalogueError::DuplicateName(s) => String::from_str("Catalogue name already exists: ").concat(s.as_str()),
            CatalogueError::TemplateNotFound(s) => String::from_str("Template not found: ").concat(s.as_str()),
            CatalogueError::TemplateAlreadyInCatalogue(s) => String::from_str("Template already in catalogue: ").concat(s.as_str()),
            CatalogueError::TemplateNotInCatalogue(s) => String::from_str("Template not in catalogue: ").concat(s.as_str()),
        }
    }
}

} // verus!
