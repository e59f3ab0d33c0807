use ssi_agent::catalog::aggregate::{Catalog, CatalogDisplay, CatalogVisibility};
use ssi_agent::catalog::command::CatalogCommand;
use ssi_agent::catalog::error::CatalogError;
use ssi_agent::catalog::event::CatalogEvent;
use ssi_agent::catalog::services::CatalogServices;
use ssi_agent::catalog::views::{AllCatalogsView, CatalogView};

struct MockCatalogServices {
    all_templates_exist: bool,
}

impl CatalogServices for MockCatalogServices {
    fn check_all_templates_exist(&self, ids: &Vec<String>) -> Vec<String> {
        if self.all_templates_exist {
            vec![]
        } else {
            ids.clone()
        }
    }
}

fn catalog_id() -> String {
    "catalog-id-12345".to_string()
}

fn display() -> CatalogDisplay {
    CatalogDisplay {
        name: "Sample Catalog".to_string(),
        description: "A sample Catalog for testing".to_string(),
        icon: None,
    }
}

fn created() -> CatalogEvent {
    CatalogEvent::CatalogCreated { id: catalog_id(), display: display(), visibility: CatalogVisibility::Private }
}

fn given(events: Vec<CatalogEvent>) -> Catalog {
    let mut c = Catalog::default();
    for e in events {
        c.apply(e);
    }
    c
}

fn found() -> MockCatalogServices {
    MockCatalogServices { all_templates_exist: true }
}

fn strings(xs: &[&str]) -> Vec<String> {
    xs.iter().map(|x| x.to_string()).collect()
}

#[test]
fn test_create_catalog() {
    let r = Catalog::default().handle(
        CatalogCommand::CreateCatalog { catalog_id: catalog_id(), display: display(), visibility: CatalogVisibility::Private },
        &found(),
    );
    assert_eq!(r, Ok(vec![created()]));
}

#[test]
fn create_catalog_requires_a_name() {
    let mut d = display();
    d.name = "   ".to_string();
    let r = Catalog::default().handle(
        CatalogCommand::CreateCatalog { catalog_id: catalog_id(), display: d, visibility: CatalogVisibility::Private },
        &found(),
    );
    assert_eq!(r, Err(CatalogError::MissingCatalogName("Catalog name cannot be empty".to_string())));
    assert_eq!(r.unwrap_err().message(), "Catalog name is required");
}

#[test]
fn test_update_display() {
    let new_display = CatalogDisplay {
        name: "Updated Name".to_string(),
        description: "Updated Description".to_string(),
        icon: None,
    };
    let c = given(vec![created()]);
    let r = c.handle(CatalogCommand::ChangeCatalogAppearance { catalog_id: catalog_id(), display: new_display.clone() }, &found());
    assert_eq!(r, Ok(vec![CatalogEvent::CatalogAppearanceChanged { id: catalog_id(), display: new_display }]));
}

#[test]
fn test_update_visibility() {
    let c = given(vec![created()]);
    let r = c.handle(CatalogCommand::MakeCatalogPublic { catalog_id: catalog_id() }, &found());
    assert_eq!(r, Ok(vec![CatalogEvent::CatalogMadePublic { id: catalog_id(), visibility: CatalogVisibility::Public }]));
}

#[test]
fn test_add_template_ids() {
    let template_ids = strings(&["template-001", "template-002"]);
    let c = given(vec![created()]);
    let r = c.handle(CatalogCommand::AddTemplateIds { catalog_id: catalog_id(), template_ids: template_ids.clone() }, &found());
    assert_eq!(r, Ok(vec![CatalogEvent::TemplateIdsAdded { id: catalog_id(), template_ids }]));
}

#[test]
fn test_add_template_id_already_present() {
    let template_ids = strings(&["template-001", "template-002"]);
    let c = given(vec![created(), CatalogEvent::TemplateIdsAdded { id: catalog_id(), template_ids: template_ids.clone() }]);
    let r = c.handle(CatalogCommand::AddTemplateIds { catalog_id: catalog_id(), template_ids }, &found());
    assert_eq!(r, Ok(vec![]));
}

#[test]
fn test_add_template_id_not_found() {
    let template_ids = strings(&["nonexistent-template", "template-002"]);
    let c = given(vec![created()]);
    let r = c.handle(
        CatalogCommand::AddTemplateIds { catalog_id: catalog_id(), template_ids: template_ids.clone() },
        &MockCatalogServices { all_templates_exist: false },
    );
    assert_eq!(r.unwrap_err().message(), format!("Template not found: {}", template_ids.join(", ")));
}

#[test]
fn test_remove_template_id() {
    let existing = strings(&["template-001", "template-002"]);
    let to_remove = strings(&["template-001"]);
    let mut c = given(vec![created(), CatalogEvent::TemplateIdsAdded { id: catalog_id(), template_ids: existing }]);
    let r = c.handle(CatalogCommand::RemoveTemplateIds { catalog_id: catalog_id(), template_ids: to_remove.clone() }, &found());
    assert_eq!(r, Ok(vec![CatalogEvent::TemplateIdsRemoved { id: catalog_id(), template_ids: to_remove }]));
    for e in r.unwrap() {
        c.apply(e);
    }
    assert_eq!(c.template_ids, strings(&["template-002"]));
}

#[test]
fn test_remove_template_id_not_in_catalog() {
    let c = given(vec![created()]);
    let r = c.handle(CatalogCommand::RemoveTemplateIds { catalog_id: catalog_id(), template_ids: strings(&["template-001"]) }, &found());
    assert_eq!(r, Ok(vec![]));
}

#[test]
fn test_delete_catalog() {
    let c = given(vec![created()]);
    let r = c.handle(CatalogCommand::DeleteCatalog { catalog_id: catalog_id() }, &found());
    assert_eq!(r, Ok(vec![CatalogEvent::CatalogDeleted { id: catalog_id() }]));
}

#[test]
fn deleted_catalog_is_not_found() {
    let c = given(vec![created(), CatalogEvent::CatalogDeleted { id: catalog_id() }]);
    let r = c.handle(CatalogCommand::MakeCatalogPrivate { catalog_id: catalog_id() }, &found());
    assert_eq!(r, Err(CatalogError::CatalogNotFound(catalog_id())));
    assert_eq!(r.unwrap_err().message(), "Catalog not found: catalog-id-12345");
}

#[test]
fn only_new_ids_are_added() {
    let c = given(vec![created(), CatalogEvent::TemplateIdsAdded { id: catalog_id(), template_ids: strings(&["a"]) }]);
    let r = c.decide(CatalogCommand::AddTemplateIds { catalog_id: catalog_id(), template_ids: strings(&["a", "b"]) }, vec![]);
    assert_eq!(r, Ok(vec![CatalogEvent::TemplateIdsAdded { id: catalog_id(), template_ids: strings(&["b"]) }]));
}

#[test]
fn all_catalogs_view_drops_deleted_catalogs() {
    let mut all = AllCatalogsView::new();
    all.update("one".to_string(), created());
    all.update("two".to_string(), created());
    assert_eq!(all.len(), 2);
    all.update("one".to_string(), CatalogEvent::CatalogDeleted { id: catalog_id() });
    assert_eq!(all.len(), 1);
    assert!(all.get("one").is_none());
    assert_eq!(all.get("two").unwrap().display, display());
}

#[test]
fn catalog_view_follows_events() {
    let mut v = CatalogView::new();
    v.update(created());
    v.update(CatalogEvent::TemplateIdsAdded { id: catalog_id(), template_ids: strings(&["a", "b"]) });
    v.update(CatalogEvent::TemplateIdsRemoved { id: catalog_id(), template_ids: strings(&["a"]) });
    assert_eq!(v.template_ids, strings(&["b"]));
    assert_eq!(v.catalog_id, catalog_id());
}

#[test]
fn catalog_names() {
    assert_eq!(CatalogCommand::DeleteCatalog { catalog_id: catalog_id() }.operation_name(), "library.catalogs.delete");
    assert_eq!(created().event_type(), "CatalogCreated");
    assert_eq!(created().event_version(), "1");
}
