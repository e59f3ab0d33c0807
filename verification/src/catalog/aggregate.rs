use vstd::prelude::*;
use crate::catalog::command::CatalogCommand;
use crate::catalog::error::{CatalogError, CatalogErrorView};
use crate::catalog::event::CatalogEvent;
use crate::catalog::services::CatalogServices;
use crate::clock::now_rfc3339;
use crate::text::{entries_in, entries_not_in, filter_by_membership, join, seq_join, trim_string, trimmed};

verus! {

/// How a catalog is displayed.
#[derive(Debug, Clone, PartialEq, Eq, Default)]
pub struct CatalogDisplay {
    pub name: String,
    pub description: String,
    pub icon: Option<String>,
}

/// Whether a catalog is listed publicly.
#[derive(Debug, Clone, Copy, PartialEq, Eq, Structural)]
pub enum CatalogVisibility {
    Public,
    Private,
}

impl Default for CatalogVisibility {
    fn default() -> (r: Self)
        ensures
            r == CatalogVisibility::Private,
    {
        CatalogVisibility::Private
    }
}

/// A catalog: a named, displayable list of template ids.
#[derive(Debug, Clone, PartialEq)]
pub struct Catalog {
    pub catalog_id: String,
    pub display: CatalogDisplay,
    pub template_ids: Vec<String>,
    pub visibility: CatalogVisibility,
    /// When the catalog last changed, as RFC 3339 text.
    pub modified_at: String,
    pub deleted: bool,
}

/// The time of a catalog that never changed: the Unix epoch, as RFC 3339 text.
pub open spec fn epoch_text() -> Seq<char> {
    "1970-01-01T00:00:00+00:00"@
}

impl Default for Catalog {
    fn default() -> (r: Self)
        ensures
            r.catalog_id@.len() == 0,
            r.display.name@.len() == 0,
            r.display.description@.len() == 0,
            r.display.icon is None,
            r.template_ids@.len() == 0,
            r.visibility == CatalogVisibility::Private,
            r.modified_at@ == epoch_text(),
            !r.deleted,
    {
        Catalog {
            catalog_id: String::new(),
            display: CatalogDisplay { name: String::new(), description: String::new(), icon: None },
            template_ids: Vec::new(),
            visibility: CatalogVisibility::Private,
            modified_at: String::from_str("1970-01-01T00:00:00+00:00"),
            deleted: false,
        }
    }
}

/// Whether `r` is the refusal `e`.
pub open spec fn catalog_refuses(r: Result<Vec<CatalogEvent>, CatalogError>, e: CatalogErrorView) -> bool {
    r matches Err(x) && x@ == e
}

/// The events of `r`; none for a refusal.
pub open spec fn catalog_events(r: Result<Vec<CatalogEvent>, CatalogError>) -> Seq<CatalogEvent> {
    match r {
        Ok(v) => v@,
        Err(_) => Seq::empty(),
    }
}

/// The one event of `r`, when `r` succeeded with exactly one.
pub open spec fn catalog_sole_event(r: Result<Vec<CatalogEvent>, CatalogError>) -> Option<CatalogEvent> {
    if r is Ok && catalog_events(r).len() == 1 {
        Some(catalog_events(r)[0])
    } else {
        None
    }
}

pub open spec fn empty_name_text() -> Seq<char> {
    "Catalog name cannot be empty"@
}

/// What catalog `c` decides on command `cmd`, given the ids among the command's template ids
/// for which no template exists (`missing`; consulted only when adding templates).
pub open spec fn catalog_decided(
    c: Catalog,
    cmd: CatalogCommand,
    missing: Seq<Seq<char>>,
    r: Result<Vec<CatalogEvent>, CatalogError>,
) -> bool {
    match cmd {
        CatalogCommand::CreateCatalog { catalog_id, display, visibility } => if trimmed(display.name@).len() == 0 {
            catalog_refuses(r, CatalogErrorView::MissingCatalogName(empty_name_text()))
        } else {
            catalog_sole_event(r) matches Some(CatalogEvent::CatalogCreated { id, display: d, visibility: v })
                && id == catalog_id && d == display && v == visibility
        },
        CatalogCommand::ChangeCatalogAppearance { catalog_id, display } => if c.deleted {
            catalog_refuses(r, CatalogErrorView::CatalogNotFound(catalog_id@))
        } else if trimmed(display.name@).len() == 0 {
            catalog_refuses(r, CatalogErrorView::MissingCatalogName(empty_name_text()))
        } else {
            catalog_sole_event(r) matches Some(CatalogEvent::CatalogAppearanceChanged { id, display: d })
                && id == catalog_id && d == display
        },
        CatalogCommand::MakeCatalogPublic { catalog_id } => if c.deleted {
            catalog_refuses(r, CatalogErrorView::CatalogNotFound(catalog_id@))
        } else {
            catalog_sole_event(r) matches Some(CatalogEvent::CatalogMadePublic { id, visibility })
                && id == catalog_id && visibility == CatalogVisibility::Public
        },
        CatalogCommand::MakeCatalogPrivate { catalog_id } => if c.deleted {
            catalog_refuses(r, CatalogErrorView::CatalogNotFound(catalog_id@))
        } else {
            catalog_sole_event(r) matches Some(CatalogEvent::CatalogMadePrivate { id, visibility })
                && id == catalog_id && visibility == CatalogVisibility::Private
        },
        CatalogCommand::AddTemplateIds { catalog_id, template_ids } => if c.deleted {
            catalog_refuses(r, CatalogErrorView::CatalogNotFound(catalog_id@))
        } else if missing.len() > 0 {
            catalog_refuses(r, CatalogErrorView::TemplateNotFound(seq_join(missing, ", "@)))
        } else {
            let added = entries_not_in(template_ids.deep_view(), c.template_ids.deep_view());
            if added.len() == 0 {
                r is Ok && catalog_events(r).len() == 0
            } else {
                catalog_sole_event(r) matches Some(CatalogEvent::TemplateIdsAdded { id, template_ids: x })
                    && id == catalog_id && x.deep_view() == added
            }
        },
        CatalogCommand::RemoveTemplateIds { catalog_id, template_ids } => if c.deleted {
            catalog_refuses(r, CatalogErrorView::CatalogNotFound(catalog_id@))
        } else {
            let removed = entries_in(template_ids.deep_view(), c.template_ids.deep_view());
            if removed.len() == 0 {
                r is Ok && catalog_events(r).len() == 0
            } else {
                catalog_sole_event(r) matches Some(CatalogEvent::TemplateIdsRemoved { id, template_ids: x })
                    && id == catalog_id && x.deep_view() == removed
            }
        },
        CatalogCommand::DeleteCatalog { catalog_id } => catalog_sole_event(r) matches Some(
            CatalogEvent::CatalogDeleted { id },
        ) && id == catalog_id,
    }
}

/// Whether catalog `a` is catalog `c` after event `e`, leaving aside when it changed.
pub open spec fn catalog_after(c: Catalog, e: CatalogEvent, a: Catalog) -> bool {
    match e {
        CatalogEvent::CatalogCreated { id, display, visibility } => {
            &&& a.catalog_id == id
            &&& a.display == display
            &&& a.visibility == visibility
            &&& a.template_ids == c.template_ids
            &&& a.deleted == c.deleted
        },
        CatalogEvent::CatalogAppearanceChanged { display, .. } => {
            &&& a.catalog_id == c.catalog_id
            &&& a.display == display
            &&& a.visibility == c.visibility
            &&& a.template_ids == c.template_ids
            &&& a.deleted == c.deleted
        },
        CatalogEvent::CatalogMadePublic { visibility, .. } | CatalogEvent::CatalogMadePrivate { visibility, .. } => {
            &&& a.catalog_id == c.catalog_id
            &&& a.display == c.display
            &&& a.visibility == visibility
            &&& a.template_ids == c.template_ids
            &&& a.deleted == c.deleted
        },
        CatalogEvent::TemplateIdsAdded { template_ids, .. } => {
            &&& a.catalog_id == c.catalog_id
            &&& a.display == c.display
            &&& a.visibility == c.visibility
            &&& a.template_ids.deep_view() == c.template_ids.deep_view() + template_ids.deep_view()
            &&& a.deleted == c.deleted
        },
        CatalogEvent::TemplateIdsRemoved { template_ids, .. } => {
            &&& a.catalog_id == c.catalog_id
            &&& a.display == c.display
            &&& a.visibility == c.visibility
            &&& a.template_ids.deep_view() == entries_not_in(c.template_ids.deep_view(), template_ids.deep_view())
            &&& a.deleted == c.deleted
        },
        CatalogEvent::CatalogDeleted { .. } => {
            &&& a.catalog_id == c.catalog_id
            &&& a.display == c.display
            &&& a.visibility == c.visibility
            &&& a.template_ids == c.template_ids
            &&& a.modified_at == c.modified_at
            &&& a.deleted
        },
    }
}

/// `v` followed by the entries of `more`.
pub fn append_strings(v: &mut Vec<String>, more: Vec<String>)
    ensures
        final(v).deep_view() == old(v).deep_view() + more.deep_view(),
{
    let ghost start = v.deep_view();
    let ghost mv = more.deep_view();
    let mut i: usize = 0;
    while i < more.len()
        invariant
            i <= more.len(),
            mv == more.deep_view(),
            v.deep_view() == start + mv.take(i as int),
        decreases more.len() - i,
    {
        let ghost before = v.deep_view();
        v.push(more[i].clone());
        assert(v.deep_view() =~= before.push(mv[i as int]));
        assert(mv.take(i + 1) =~= mv.take(i as int).push(mv[i as int]));
        i = i + 1;
    }
    assert(mv.take(more.len() as int) == mv);
}

fn one_event(e: CatalogEvent) -> (r: Vec<CatalogEvent>)
    ensures
        r@ == seq![e],
{
    let mut v: Vec<CatalogEvent> = Vec::new();
    v.push(e);
    v
}

fn empty_name_error() -> (r: CatalogError)
    ensures
        r@ == CatalogErrorView::MissingCatalogName(empty_name_text()),
{
    CatalogError::MissingCatalogName(String::from_str("Catalog name cannot be empty"))
}

impl Catalog {
    /// Decides a command against this catalog, given the ids among the command's template ids
    /// for which no template exists: the events to record, or why the command is refused.
    pub fn decide(&self, command: CatalogCommand, missing_templates: Vec<String>) -> (r: Result<Vec<CatalogEvent>, CatalogError>)
        ensures
            catalog_decided(*self, command, missing_templates.deep_view(), r),
    {
        match command {
            CatalogCommand::CreateCatalog { catalog_id, display, visibility } => {
                if trim_string(display.name.as_str()).unicode_len() == 0 {
                    return Err(empty_name_error());
                }
                Ok(one_event(CatalogEvent::CatalogCreated { id: catalog_id, display, visibility }))
            },
            CatalogCommand::ChangeCatalogAppearance { catalog_id, display } => {
                if self.deleted {
                    return Err(CatalogError::CatalogNotFound(catalog_id));
                }
                if trim_string(display.name.as_str()).unicode_len() == 0 {
                    return Err(empty_name_error());
                }
                Ok(one_event(CatalogEvent::CatalogAppearanceChanged { id: catalog_id, display }))
            },
            CatalogCommand::MakeCatalogPublic { catalog_id } => {
                if self.deleted {
                    return Err(CatalogError::CatalogNotFound(catalog_id));
                }
                Ok(one_event(CatalogEvent::CatalogMadePublic { id: catalog_id, visibility: CatalogVisibility::Public }))
            },
            CatalogCommand::MakeCatalogPrivate { catalog_id } => {
                if self.deleted {
                    return Err(CatalogError::CatalogNotFound(catalog_id));
                }
                Ok(one_event(CatalogEvent::CatalogMadePrivate { id: catalog_id, visibility: CatalogVisibility::Private }))
            },
            CatalogCommand::AddTemplateIds { catalog_id, template_ids } => {
                if self.deleted {
                    return Err(CatalogError::CatalogNotFound(catalog_id));
                }
                if missing_templates.len() > 0 {
                    return Err(CatalogError::TemplateNotFound(join(&missing_templates, ", ")));
                }
                let added = filter_by_membership(&template_ids, &self.template_ids, false);
                if added.len() == 0 {
                    return Ok(Vec::new());
                }
                Ok(one_event(CatalogEvent::TemplateIdsAdded { id: catalog_id, template_ids: added }))
            },
            CatalogCommand::RemoveTemplateIds { catalog_id, template_ids } => {
                if self.deleted {
                    return Err(CatalogError::CatalogNotFound(catalog_id));
                }
                let removed = filter_by_membership(&template_ids, &self.template_ids, true);
                if removed.len() == 0 {
                    return Ok(Vec::new());
                }
                Ok(one_event(CatalogEvent::TemplateIdsRemoved { id: catalog_id, template_ids: removed }))
            },
            CatalogCommand::DeleteCatalog { catalog_id } => Ok(one_event(CatalogEvent::CatalogDeleted { id: catalog_id })),
        }
    }

    /// Handles a command: asks `services` which of the template ids to add have no template,
    /// when that matters, and decides as [`Catalog::decide`] does on the answer.
    pub fn handle<S: CatalogServices>(&self, command: CatalogCommand, services: &S) -> (r: Result<Vec<CatalogEvent>, CatalogError>)
        ensures
            match command {
                CatalogCommand::AddTemplateIds { template_ids, .. } => if self.deleted {
                    catalog_decided(*self, command, Seq::empty(), r)
                } else {
                    exists|missing: Vec<String>|
                        #[trigger] call_ensures(S::check_all_templates_exist, (services, &template_ids), missing)
                            && catalog_decided(*self, command, missing.deep_view(), r)
                },
                _ => catalog_decided(*self, command, Seq::empty(), r),
            },
    {
        let missing = match &command {
            CatalogCommand::AddTemplateIds { template_ids, .. } => if self.deleted {
                Vec::new()
            } else {
                services.check_all_templates_exist(template_ids)
            },
            _ => Vec::new(),
        };
        let r = self.decide(command, missing);
        assert(catalog_decided(*self, command, missing.deep_view(), r));
        r
    }

    /// Applies an event to the catalog; every event but a deletion stamps the current time.
    pub fn apply(&mut self, event: CatalogEvent)
        ensures
            catalog_after(*old(self), event, *final(self)),
    {
        match event {
            CatalogEvent::CatalogCreated { id, display, visibility } => {
                self.catalog_id = id;
                self.display = display;
                self.visibility = visibility;
                self.modified_at = now_rfc3339();
            },
            CatalogEvent::CatalogAppearanceChanged { display, .. } => {
                self.display = display;
                self.modified_at = now_rfc3339();
            },
            CatalogEvent::CatalogMadePublic { visibility, .. } => {
                self.visibility = visibility;
                self.modified_at = now_rfc3339();
            },
            CatalogEvent::CatalogMadePrivate { visibility, .. } => {
                self.visibility = visibility;
                self.modified_at = now_rfc3339();
            },
            CatalogEvent::TemplateIdsAdded { template_ids, .. } => {
                append_strings(&mut self.template_ids, template_ids);
                self.modified_at = now_rfc3339();
            },
            CatalogEvent::TemplateIdsRemoved { template_ids, .. } => {
                self.template_ids = filter_by_membership(&self.template_ids, &template_ids, false);
                self.modified_at = now_rfc3339();
            },
            CatalogEvent::CatalogDeleted { .. } => {
                self.deleted = true;
            },
        }
    }
}

} // verus!
