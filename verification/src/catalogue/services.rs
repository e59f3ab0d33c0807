use vstd::prelude::*;
use crate::catalog::services::lists_template;
use crate::template::views::AllTemplatesView;

verus! {

/// What a catalogue asks of the rest of the system.
pub trait CatalogueServices {
    /// Whether a template with id `id` exists.
    fn template_exists(&self, id: &str) -> bool;
}

/// A template exists when the read model of all templates lists it.
impl CatalogueServices for AllTemplatesView {
    fn template_exists(&self, id: &str) -> (r: bool)
        ensures
            r == lists_template(*self, id@),
    {
        self.get(id).is_some()
    }
}

} // verus!
