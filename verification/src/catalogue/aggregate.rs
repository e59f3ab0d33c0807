use vstd::prelude::*;
use crate::catalog::aggregate::append_strings;
use crate::catalogue::command::CatalogueCommand;
use crate::catalogue::error::{CatalogueError, CatalogueErrorView};
use crate::catalogue::event::CatalogueEvent;
use crate::catalogue::services::CatalogueServices;
use crate::clock::now_rfc3339;
use crate::text::{contains_string, entries_not_in, filter_by_membership};

verus! {

/// An icon shown with a catalogue.
#[derive(Debug, Clone, PartialEq, Eq, Default)]
pub struct DisplayIcon {
    pub url: String,
    pub alt_text: String,
}

/// How a catalogue is displayed.
#[derive(Debug, Clone, PartialEq, Eq, Default)]
pub struct CatalogueDisplay {
    pub name: String,
    pub description: String,
    pub icon: Option<DisplayIcon>,
}

/// Whether a catalogue is listed publicly, privately, or not yet.
#[derive(Debug, Clone, Copy, PartialEq, Eq, Structural)]
pub enum CatalogueVisibility {
    Public,
    Private,
    Draft,
}

impl Default for CatalogueVisibility {
    fn default() -> (r: Self)
        ensures
            r == CatalogueVisibility::Private,
    {
        CatalogueVisibility::Private
    }
}

/// A catalogue: a displayable list of template ids.
#[derive(Debug, Clone, PartialEq)]
pub struct Catalogue {
    pub catalogue_id: String,
    pub display: CatalogueDisplay,
    pub template_ids: Vec<String>,
    pub visibility: CatalogueVisibility,
    /// When the catalogue last changed, as RFC 3339 text.
    pub modified_at: String,
    pub is_deleted: bool,
}

/// Whether a catalogue holds the default value, leaving aside when it changed.
pub open spec fn is_blank_catalogue(c: Catalogue) -> bool {
    &&& c.catalogue_id@.len() == 0
    &&& c.display.name@.len() == 0
    &&& c.display.description@.len() == 0
    &&& c.display.icon is None
    &&& c.template_ids@.len() == 0
    &&& c.visibility == CatalogueVisibility::Private
    &&& !c.is_deleted
}

impl Default for Catalogue {
    fn default() -> (r: Self)
        ensures
            is_blank_catalogue(r),
            r.modified_at@ == crate::catalog::aggregate::epoch_text(),
    {
        Catalogue {
            catalogue_id: String::new(),
            display: CatalogueDisplay { name: String::new(), description: String::new(), icon: None },
            template_ids: Vec::new(),
            visibility: CatalogueVisibility::Private,
            modified_at: String::from_str("1970-01-01T00:00:00+00:00"),
            is_deleted: false,
        }
    }
}

/// The events of `r`; none for a refusal.
pub open spec fn catalogue_events(r: Result<Vec<CatalogueEvent>, CatalogueError>) -> Seq<CatalogueEvent> {
    match r {
        Ok(v) => v@,
        Err(_) => Seq::empty(),
    }
}

/// The one event of `r`, when `r` succeeded with exactly one.
pub open spec fn catalogue_sole_event(r: Result<Vec<CatalogueEvent>, CatalogueError>) -> Option<CatalogueEvent> {
    if r is Ok && catalogue_events(r).len() == 1 {
        Some(catalogue_events(r)[0])
    } else {
        None
    }
}

/// What catalogue `c` decides on command `cmd`, given whether the template that the command
/// names exists (consulted only when adding or removing a template).
pub open spec fn catalogue_decided(
    c: Catalogue,
    cmd: CatalogueCommand,
    template_exists: bool,
    r: Result<Vec<CatalogueEvent>, CatalogueError>,
) -> bool {
    match cmd {
        CatalogueCommand::CreateCatalogue { catalogue_id, display, visibility } => catalogue_sole_event(r) matches Some(
            CatalogueEvent::CatalogueCreated { id, display: d, visibility: v },
        ) && id == catalogue_id && d == display && v == visibility,
        CatalogueCommand::UpdateDisplay { catalogue_id, display } => catalogue_sole_event(r) matches Some(
            CatalogueEvent::CatalogueDisplayUpdated { id, display: d },
        ) && id == catalogue_id && d == display,
        CatalogueCommand::UpdateVisibility { catalogue_id, visibility } => catalogue_sole_event(r) matches Some(
            CatalogueEvent::VisibilityUpdated { id, visibility: v },
        ) && id == catalogue_id && v == visibility,
        CatalogueCommand::AddTemplateId { catalogue_id, template_id } => if !template_exists {
            r matches Err(e) && e@ == CatalogueErrorView::TemplateNotFound(template_id@)
        } else if c.template_ids.deep_view().contains(template_id@) {
            r is Ok && catalogue_events(r).len() == 0
        } else {
            catalogue_sole_event(r) matches Some(CatalogueEvent::TemplateIdAdded { id, template_id: t })
                && id == catalogue_id && t == template_id
        },
        CatalogueCommand::RemoveTemplateId { catalogue_id, template_id } => if !template_exists {
            r matches Err(e) && e@ == CatalogueErrorView::TemplateNotFound(template_id@)
        } else if !c.template_ids.deep_view().contains(template_id@) {
            r is Ok && catalogue_events(r).len() == 0
        } else {
            catalogue_sole_event(r) matches Some(CatalogueEvent::TemplateIdRemoved { id, template_id: t })
                && id == catalogue_id && t == template_id
        },
        CatalogueCommand::DeleteCatalogue { catalogue_id } => catalogue_sole_event(r) matches Some(
            CatalogueEvent::CatalogueDeleted { id },
        ) && id == catalogue_id,
    }
}

/// Whether catalogue `a` is catalogue `c` after event `e`, leaving aside when it changed.
pub open spec fn catalogue_after(c: Catalogue, e: CatalogueEvent, a: Catalogue) -> bool {
    match e {
        CatalogueEvent::CatalogueCreated { id, display, visibility } => {
            &&& a.catalogue_id == id
            &&& a.display == display
            &&& a.visibility == visibility
            &&& a.template_ids == c.template_ids
            &&& a.is_deleted == c.is_deleted
        },
        CatalogueEvent::CatalogueDisplayUpdated { display, .. } => {
            &&& a.catalogue_id == c.catalogue_id
            &&& a.display == display
            &&& a.visibility == c.visibility
            &&& a.template_ids == c.template_ids
            &&& a.is_deleted == c.is_deleted
        },
        CatalogueEvent::VisibilityUpdated { visibility, .. } => {
            &&& a.catalogue_id == c.catalogue_id
            &&& a.display == c.display
            &&& a.visibility == visibility
            &&& a.template_ids == c.template_ids
            &&& a.is_deleted == c.is_deleted
        },
        CatalogueEvent::TemplateIdAdded { template_id, .. } => {
            &&& a.catalogue_id == c.catalogue_id
            &&& a.display == c.display
            &&& a.visibility == c.visibility
            &&& a.template_ids.deep_view() == c.template_ids.deep_view().push(template_id@)
            &&& a.is_deleted == c.is_deleted
        },
        CatalogueEvent::TemplateIdRemoved { template_id, .. } => {
            &&& a.catalogue_id == c.catalogue_id
            &&& a.display == c.display
            &&& a.visibility == c.visibility
            &&& a.template_ids.deep_view() == entries_not_in(c.template_ids.deep_view(), seq![template_id@])
            &&& a.is_deleted == c.is_deleted
        },
        CatalogueEvent::CatalogueDeleted { .. } => {
            &&& a.catalogue_id == c.catalogue_id
            &&& a.display == c.display
            &&& a.visibility == c.visibility
            &&& a.template_ids == c.template_ids
            &&& a.modified_at == c.modified_at
            &&& a.is_deleted
        },
    }
}

fn one_event(e: CatalogueEvent) -> (r: Vec<CatalogueEvent>)
    ensures
        r@ == seq![e],
{
    let mut v: Vec<CatalogueEvent> = Vec::new();
    v.push(e);
    v
}

/// `ids` without `id`, in order.
pub fn without_id(ids: &Vec<String>, id: &String) -> (r: Vec<String>)
    ensures
        r.deep_view() == entries_not_in(ids.deep_view(), seq![id@]),
{
    let mut one: Vec<String> = Vec::new();
    one.push(id.clone());
    assert(one.deep_view() =~= seq![id@]);
    filter_by_membership(ids, &one, false)
}

impl Catalogue {
    /// Decides a command against this catalogue, given whether the template the command names
    /// exists: the events to record, or why the command is refused.
    pub fn decide(&self, command: CatalogueCommand, template_exists: bool) -> (r: Result<Vec<CatalogueEvent>, CatalogueError>)
        ensures
            catalogue_decided(*self, command, template_exists, r),
    {
        match command {
            CatalogueCommand::CreateCatalogue { catalogue_id, display, visibility } => Ok(
                one_event(CatalogueEvent::CatalogueCreated { id: catalogue_id, display, visibility }),
            ),
            CatalogueCommand::UpdateDisplay { catalogue_id, display } => Ok(
                one_event(CatalogueEvent::CatalogueDisplayUpdated { id: catalogue_id, display }),
            ),
            CatalogueCommand::UpdateVisibility { catalogue_id, visibility } => Ok(
                one_event(CatalogueEvent::VisibilityUpdated { id: catalogue_id, visibility }),
            ),
            CatalogueCommand::AddTemplateId { catalogue_id, template_id } => {
                if !template_exists {
                    return Err(CatalogueError::TemplateNotFound(template_id));
                }
                if contains_string(&self.template_ids, &template_id) {
                    return Ok(Vec::new());
                }
                Ok(one_event(CatalogueEvent::TemplateIdAdded { id: catalogue_id, template_id }))
            },
            CatalogueCommand::RemoveTemplateId { catalogue_id, template_id } => {
                if !template_exists {
                    return Err(CatalogueError::TemplateNotFound(template_id));
                }
                if !contains_string(&self.template_ids, &template_id) {
                    return Ok(Vec::new());
                }
                Ok(one_event(CatalogueEvent::TemplateIdRemoved { id: catalogue_id, template_id }))
            },
            CatalogueCommand::DeleteCatalogue { catalogue_id } => Ok(
                one_event(CatalogueEvent::CatalogueDeleted { id: catalogue_id }),
            ),
        }
    }

    /// Handles a command: asks `services` whether the named template exists, when that
    /// matters, and decides as [`Catalogue::decide`] does on the answer.
    pub fn handle<S: CatalogueServices>(&self, command: CatalogueCommand, services: &S) -> (r: Result<Vec<CatalogueEvent>, CatalogueError>)
        ensures
            match command {
                CatalogueCommand::AddTemplateId { template_id, .. } | CatalogueCommand::RemoveTemplateId {
                    template_id,
                    ..
                } => exists|asked: &str, found: bool|
                    #[trigger] call_ensures(S::template_exists, (services, asked), found) && asked@ == template_id@
                        && catalogue_decided(*self, command, found, r),
                _ => catalogue_decided(*self, command, true, r),
            },
    {
        let exists = match &command {
            CatalogueCommand::AddTemplateId { template_id, .. } => services.template_exists(template_id.as_str()),
            CatalogueCommand::RemoveTemplateId { template_id, .. } => services.template_exists(template_id.as_str()),
            _ => true,
        };
        let r = self.decide(command, exists);
        assert(catalogue_decided(*self, command, exists, r));
        r
    }

    /// Applies an event to the catalogue; every event but a deletion stamps the current time.
    pub fn apply(&mut self, event: CatalogueEvent)
        ensures
            catalogue_after(*old(self), event, *final(self)),
    {
        match event {
            CatalogueEvent::CatalogueCreated { id, display, visibility } => {
                self.catalogue_id = id;
                self.display = display;
                self.visibility = visibility;
                self.modified_at = now_rfc3339();
            },
            CatalogueEvent::CatalogueDisplayUpdated { display, .. } => {
                self.display = display;
                self.modified_at = now_rfc3339();
            },
            CatalogueEvent::VisibilityUpdated { visibility, .. } => {
                self.visibility = visibility;
                self.modified_at = now_rfc3339();
            },
            CatalogueEvent::TemplateIdAdded { template_id, .. } => {
                let ghost tv = template_id@;
                let mut one: Vec<String> = Vec::new();
                one.push(template_id);
                assert(one.deep_view() =~= seq![tv]);
                let ghost held = self.template_ids.deep_view();
                append_strings(&mut self.template_ids, one);
                assert(held + seq![tv] =~= held.push(tv));
                self.modified_at = now_rfc3339();
            },
            CatalogueEvent::TemplateIdRemoved { template_id, .. } => {
                self.template_ids = without_id(&self.template_ids, &template_id);
                self.modified_at = now_rfc3339();
            },
            CatalogueEvent::CatalogueDeleted { .. } => {
                self.is_deleted = true;
            },
        }
    }
}

} // verus!
