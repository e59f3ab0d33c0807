use ssi_agent::catalogue::aggregate::{Catalogue, CatalogueDisplay, CatalogueVisibility, DisplayIcon};
use ssi_agent::catalogue::command::CatalogueCommand;
use ssi_agent::catalogue::error::CatalogueError;
use ssi_agent::catalogue::event::CatalogueEvent;
use ssi_agent::catalogue::services::CatalogueServices;
use ssi_agent::catalogue::views::AllCataloguesView;

struct Templates {
    exists: bool,
}

impl CatalogueServices for Templates {
    fn template_exists(&self, _id: &str) -> bool {
        self.exists
    }
}

fn display() -> CatalogueDisplay {
    CatalogueDisplay {
        name: "Catalogue".to_string(),
        description: "Templates".to_string(),
        icon: Some(DisplayIcon { url: "https://example.com/icon.png".to_string(), alt_text: "icon".to_string() }),
    }
}

fn created() -> CatalogueEvent {
    CatalogueEvent::CatalogueCreated { id: "cat".to_string(), display: display(), visibility: CatalogueVisibility::Draft }
}

#[test]
fn create_and_add_template() {
    let mut c = Catalogue::default();
    let r = c.handle(
        CatalogueCommand::CreateCatalogue { catalogue_id: "cat".to_string(), display: display(), visibility: CatalogueVisibility::Draft },
        &Templates { exists: true },
    );
    assert_eq!(r, Ok(vec![created()]));
    c.apply(created());
    let r = c.handle(
        CatalogueCommand::AddTemplateId { catalogue_id: "cat".to_string(), template_id: "t1".to_string() },
        &Templates { exists: true },
    );
    assert_eq!(r, Ok(vec![CatalogueEvent::TemplateIdAdded { id: "cat".to_string(), template_id: "t1".to_string() }]));
    for e in r.unwrap() {
        c.apply(e);
    }
    assert_eq!(c.template_ids, vec!["t1".to_string()]);
    let again = c.handle(
        CatalogueCommand::AddTemplateId { catalogue_id: "cat".to_string(), template_id: "t1".to_string() },
        &Templates { exists: true },
    );
    assert_eq!(again, Ok(vec![]));
}

#[test]
fn unknown_template_is_refused() {
    let c = Catalogue::default();
    let r = c.handle(
        CatalogueCommand::RemoveTemplateId { catalogue_id: "cat".to_string(), template_id: "t9".to_string() },
        &Templates { exists: false },
    );
    assert_eq!(r, Err(CatalogueError::TemplateNotFound("t9".to_string())));
    assert_eq!(r.unwrap_err().message(), "Template not found: t9");
}

#[test]
fn remove_template_and_delete() {
    let mut c = Catalogue::default();
    c.apply(created());
    c.apply(CatalogueEvent::TemplateIdAdded { id: "cat".to_string(), template_id: "t1".to_string() });
    let r = c.decide(CatalogueCommand::RemoveTemplateId { catalogue_id: "cat".to_string(), template_id: "t1".to_string() }, true);
    assert_eq!(r, Ok(vec![CatalogueEvent::TemplateIdRemoved { id: "cat".to_string(), template_id: "t1".to_string() }]));
    for e in r.unwrap() {
        c.apply(e);
    }
    assert!(c.template_ids.is_empty());
    let r = c.decide(CatalogueCommand::RemoveTemplateId { catalogue_id: "cat".to_string(), template_id: "t1".to_string() }, true);
    assert_eq!(r, Ok(vec![]));
    c.apply(CatalogueEvent::CatalogueDeleted { id: "cat".to_string() });
    assert!(c.is_deleted);
}

#[test]
fn view_lists_a_template_once() {
    let mut all = AllCataloguesView::new();
    all.update("cat".to_string(), created());
    all.update("cat".to_string(), CatalogueEvent::TemplateIdAdded { id: "cat".to_string(), template_id: "t1".to_string() });
    all.update("cat".to_string(), CatalogueEvent::TemplateIdAdded { id: "cat".to_string(), template_id: "t1".to_string() });
    assert_eq!(all.len(), 1);
    assert_eq!(all.get("cat").unwrap().template_ids, vec!["t1".to_string()]);
    assert_eq!(created().event_type(), "CatalogueCreated");
}

#[test]
fn catalogue_error_messages() {
    assert_eq!(CatalogueError::DuplicateName("x".to_string()).message(), "Catalogue name already exists: x");
    assert_eq!(CatalogueError::TemplateAlreadyInCatalogue("x".to_string()).message(), "Template already in catalogue: x");
    assert_eq!(CatalogueError::TemplateNotInCatalogue("x".to_string()).message(), "Template not in catalogue: x");
}
