use vstd::prelude::*;

verus! {

/// Why a catalog command was refused.
#[derive(Debug, Clone, PartialEq, Eq)]
pub enum CatalogError {
    TemplateNotFound(String),
    MissingCatalogName(String),
    CatalogNotFound(String),
}

/// The mathematical value of a [`CatalogError`].
pub enum CatalogErrorView {
    TemplateNotFound(Seq<char>),
    MissingCatalogName(Seq<char>),
    CatalogNotFound(Seq<char>),
}

impl View for CatalogError {
    type V = CatalogErrorView;

    open spec fn view(&self) -> CatalogErrorView {
        match self {
            CatalogError::TemplateNotFound(s) => CatalogErrorView::TemplateNotFound(s@),
            CatalogError::MissingCatalogName(s) => CatalogErrorView::MissingCatalogName(s@),
            CatalogError::CatalogNotFound(s) => CatalogErrorView::CatalogNotFound(s@),
        }
    }
}

/// The message that an error displays.
pub open spec fn catalog_error_message(e: CatalogErrorView) -> Seq<char> {
    match e {
        CatalogErrorView::TemplateNotFound(s) => "Template not found: "@ + s,
        CatalogErrorView::MissingCatalogName(_) => "Catalog name is required"@,
        CatalogErrorView::CatalogNotFound(s) => "Catalog not found: "@ + s,
    }
}

impl CatalogError {
    /// The message that the error displays.
    pub fn message(&self) -> (r: String)
        ensures
            r@ == catalog_error_message(self@),
    {
        match self {
            CatalogError::TemplateNotFound(s) => String::from_str("Template not found: ").concat(s.as_str()),
            CatalogError::MissingCatalogName(_) => String::from_str("Catalog name is required"),
            CatalogError::CatalogNotFound(s) => String::from_str("Catalog not found: ").concat(s.as_str()),
        }
    }
}

} // verus!
