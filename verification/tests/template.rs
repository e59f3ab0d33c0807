use ssi_agent::json::Json;
use ssi_agent::template::command::TemplateCommand;
use ssi_agent::template::error::TemplateError;
use ssi_agent::template::event::TemplateEvent;
use ssi_agent::template::types::{
    AttributeMap, Authorization, DataModel, Display, Expiration, HolderType, PropertyAttribute, Status, Template,
    Visibility,
};
use ssi_agent::template::views::AllTemplatesView;

const NOW: &str = "2024-01-01T00:00:00Z";

fn to_json(v: &serde_json::Value) -> Json {
    match v {
        serde_json::Value::Null => Json::Null,
        serde_json::Value::Bool(b) => Json::Bool(*b),
        serde_json::Value::Number(n) => Json::Number(n.to_string()),
        serde_json::Value::String(s) => Json::Str(s.clone()),
        serde_json::Value::Array(items) => Json::Array(items.iter().map(to_json).collect()),
        serde_json::Value::Object(members) => {
            Json::Object(members.iter().map(|(k, v)| (k.clone(), to_json(v))).collect())
        }
    }
}

fn json(text: &str) -> Json {
    to_json(&serde_json::from_str::<serde_json::Value>(text).unwrap())
}

/// A small OpenBadges 3.0 achievement schema with the `$defs` the rules read.
fn ob() -> Json {
    json(
        r##"{
        "$defs": {
            "AchievementSubject": {
                "type": "object",
                "properties": {
                    "id": { "type": "string" },
                    "type": { "type": "array" },
                    "activityEndDate": { "type": "string" },
                    "activityStartDate": { "type": "string" },
                    "achievement": { "$ref": "#/$defs/Achievement" },
                    "image": { "$ref": "#/$defs/Image" },
                    "narrative": { "type": "string" },
                    "source": { "$ref": "#/$defs/Profile" }
                },
                "required": ["type", "achievement"]
            },
            "Achievement": {
                "type": "object",
                "properties": {
                    "id": { "type": "string" },
                    "type": { "type": "array" },
                    "achievementType": { "type": "string" },
                    "creator": { "$ref": "#/$defs/Profile" },
                    "criteria": { "$ref": "#/$defs/Criteria" },
                    "description": { "type": "string" },
                    "fieldOfStudy": { "type": "string" },
                    "image": { "$ref": "#/$defs/Image" },
                    "name": { "type": "string" },
                    "specialization": { "type": "string" }
                },
                "required": ["id", "type", "criteria", "description", "name"]
            },
            "Criteria": {
                "type": "object",
                "properties": {
                    "id": { "type": "string" },
                    "narrative": { "type": "string" }
                },
                "required": []
            },
            "Image": {
                "type": "object",
                "properties": {
                    "id": { "type": "string" },
                    "type": { "type": "string" },
                    "caption": { "type": "string" }
                },
                "required": ["id", "type"]
            },
            "Profile": {
                "type": "object",
                "properties": {
                    "id": { "type": "string" },
                    "type": { "type": "array" },
                    "name": { "type": "string" },
                    "parentOrg": { "$ref": "#/$defs/Profile" }
                },
                "required": ["id", "type"]
            }
        }
    }"##,
    )
}

fn s(x: &str) -> String {
    x.to_string()
}

fn strings(xs: &[&str]) -> Vec<String> {
    xs.iter().map(|x| x.to_string()).collect()
}

fn attrs(entries: &[(&str, bool, bool)]) -> AttributeMap {
    let mut m = AttributeMap::new();
    for (k, sd, nr) in entries {
        m.insert(k.to_string(), PropertyAttribute::new(*sd, *nr));
    }
    m
}

fn entries(m: &AttributeMap) -> Vec<(String, bool, bool)> {
    (0..m.len())
        .map(|i| {
            let a = m.attr_at(i);
            (m.key_at(i).clone(), a.selectively_disclosable, a.non_removable)
        })
        .collect()
}

fn created(
    template_id: &str,
    data_model: DataModel,
    status: Status,
    type_: Vec<String>,
    schema: Option<Json>,
    attributes: Option<AttributeMap>,
) -> TemplateEvent {
    TemplateEvent::TemplateCreated {
        template_id: s(template_id),
        source_template_id: None,
        title: s("Test"),
        display: None,
        data_model,
        holder_type: HolderType::Individual,
        modified_at: s(NOW),
        tags: None,
        status,
        visibility: Visibility::Private,
        credential_expiration: Expiration::default(),
        description: None,
        type_,
        schema,
        schema_properties_attributes: attributes,
        holder_authorization: Authorization::default(),
    }
}

fn given(events: Vec<TemplateEvent>) -> Template {
    let mut t = Template::default();
    for e in events {
        t.apply(e);
    }
    t
}

fn with_status(status: Status) -> Template {
    given(vec![created("template_id", DataModel::W3CVcDataModelV1_1, status, vec![], None, None)])
}

fn decide(t: &Template, c: TemplateCommand) -> Result<Vec<TemplateEvent>, TemplateError> {
    t.decide(c, &ob(), s(NOW))
}

fn error_message(r: Result<Vec<TemplateEvent>, TemplateError>) -> String {
    r.expect_err("the command should be refused").message()
}

#[allow(clippy::too_many_arguments)]
fn create_command(
    data_model: DataModel,
    title: &str,
    status: Status,
    type_: Vec<String>,
    schema: Option<Json>,
    attributes: Option<AttributeMap>,
) -> TemplateCommand {
    TemplateCommand::CreateNewTemplate {
        template_id: s("template_id"),
        source_template_id: None,
        title: s(title),
        display: None,
        data_model,
        holder_type: HolderType::Individual,
        tags: None,
        status,
        visibility: Visibility::Private,
        credential_expiration: None,
        description: None,
        type_,
        schema,
        schema_properties_attributes: attributes,
        holder_authorization: Authorization::default(),
    }
}

fn name_schema() -> Json {
    json(r#"{ "type": "object", "properties": { "name": { "type": "string" } } }"#)
}

fn valid_ob_schema() -> Json {
    json(
        r#"{
        "type": "object",
        "properties": {
            "achievement": {
                "type": "object",
                "properties": {
                    "name": { "type": "string" },
                    "description": { "type": "string" },
                    "criteria": { "type": "object", "properties": { "narrative": { "type": "string" } } }
                }
            }
        }
    }"#,
    )
}

fn view_created_event() -> TemplateEvent {
    TemplateEvent::TemplateCreated {
        template_id: s("template-id"),
        source_template_id: None,
        title: s("Template"),
        display: None,
        data_model: DataModel::W3CVcDataModelV2_0,
        holder_type: HolderType::Individual,
        modified_at: s("2024-01-01T00:00:00Z"),
        tags: Some(vec![s("existing")]),
        status: Status::Published,
        visibility: Visibility::Private,
        credential_expiration: Expiration::Never,
        description: Some(s("existing description")),
        type_: vec![s("VerifiableCredential")],
        schema: None,
        schema_properties_attributes: None,
        holder_authorization: Authorization::default(),
    }
}

#[test]
fn tags_updated_with_empty_list_clears_tags() {
    let mut view = Template::default();
    view.update(view_created_event());
    view.update(TemplateEvent::TagsUpdated {
        template_id: s("template-id"),
        tags: vec![],
        modified_at: s("2024-01-02T00:00:00Z"),
    });
    assert_eq!(view.tags, None);
    assert_eq!(view.modified_at.as_deref(), Some("2024-01-02T00:00:00Z"));
}

#[test]
fn description_updated_with_empty_string_clears_description() {
    let mut view = Template::default();
    view.update(view_created_event());
    view.update(TemplateEvent::DescriptionUpdated {
        template_id: s("template-id"),
        description: String::new(),
        modified_at: s("2024-01-02T00:00:00Z"),
    });
    assert_eq!(view.description, None);
    assert_eq!(view.modified_at.as_deref(), Some("2024-01-02T00:00:00Z"));
}

#[test]
fn credential_expiration_updated_replaces_previous_value() {
    let mut view = Template::default();
    view.update(view_created_event());
    view.update(TemplateEvent::CredentialExpirationUpdated {
        template_id: s("template-id"),
        credential_expiration: Expiration::Duration(s("P30D")),
        modified_at: s("2024-01-02T00:00:00Z"),
    });
    assert_eq!(view.credential_expiration, Expiration::Duration(s("P30D")));
    assert_eq!(view.modified_at.as_deref(), Some("2024-01-02T00:00:00Z"));
}

#[test]
fn template_deleted_marks_status_deleted() {
    let mut view = Template::default();
    view.update(view_created_event());
    view.update(TemplateEvent::TemplateDeleted { template_id: s("template-id") });
    assert_eq!(view.status, Status::Deleted);
}

#[test]
fn view_keeps_content_after_deletion_while_aggregate_resets_it() {
    let mut view = Template::default();
    view.update(view_created_event());
    view.update(TemplateEvent::TemplateDeleted { template_id: s("template-id") });
    assert_eq!(view.title, "Template");

    let mut aggregate = Template::default();
    aggregate.apply(view_created_event());
    aggregate.apply(TemplateEvent::TemplateDeleted { template_id: s("template-id") });
    assert_eq!(aggregate.status, Status::Deleted);
    assert_eq!(aggregate.template_id, "template-id");
    assert_eq!(aggregate.title, "");
    assert_eq!(aggregate.tags, None);
}

#[test]
fn all_templates_view_lists_each_aggregate_once() {
    let mut all = AllTemplatesView::new();
    all.update(s("a"), view_created_event());
    all.update(s("b"), view_created_event());
    all.update(
        s("a"),
        TemplateEvent::TitleUpdated { template_id: s("template-id"), title: s("Renamed"), modified_at: s(NOW) },
    );
    assert_eq!(all.len(), 2);
    assert_eq!(all.get("a").unwrap().title, "Renamed");
    assert_eq!(all.get("b").unwrap().title, "Template");
    assert!(all.get("c").is_none());
}

#[test]
fn test_create_template() {
    let mut attributes = AttributeMap::new();
    attributes.insert(s("/name"), PropertyAttribute::new(true, false));
    let events = decide(
        &Template::default(),
        TemplateCommand::CreateNewTemplate {
            template_id: s("template_id"),
            source_template_id: None,
            title: s("Sample Template"),
            display: Some(Display { name: s("Sample Display"), logo: None }),
            data_model: DataModel::W3CVcDataModelV2_0,
            holder_type: HolderType::Individual,
            tags: Some(strings(&["tag1", "tag2"])),
            status: Status::Draft,
            visibility: Visibility::Private,
            credential_expiration: None,
            description: Some(s("Sample description")),
            type_: strings(&["VerifiableCredential", "Type1", "Type2"]),
            schema: Some(name_schema()),
            schema_properties_attributes: Some(attributes.clone()),
            holder_authorization: Authorization::default(),
        },
    )
    .unwrap();
    assert_eq!(
        events,
        vec![TemplateEvent::TemplateCreated {
            template_id: s("template_id"),
            source_template_id: None,
            title: s("Sample Template"),
            display: Some(Display { name: s("Sample Display"), logo: None }),
            data_model: DataModel::W3CVcDataModelV2_0,
            holder_type: HolderType::Individual,
            modified_at: s(NOW),
            tags: Some(strings(&["tag1", "tag2"])),
            status: Status::Draft,
            visibility: Visibility::Private,
            credential_expiration: Expiration::Duration(s("P90D")),
            description: Some(s("Sample description")),
            type_: strings(&["VerifiableCredential", "Type1", "Type2"]),
            schema: Some(name_schema()),
            schema_properties_attributes: Some(attributes),
            holder_authorization: Authorization::default(),
        }]
    );
}

#[test]
fn test_create_template_without_title() {
    let r = decide(&Template::default(), create_command(DataModel::W3CVcDataModelV1_1, "", Status::Draft, vec![], None, None));
    assert_eq!(error_message(r), "A title is required when creating or updating a template");
}

#[test]
fn test_create_template_with_blank_title() {
    let r = decide(&Template::default(), create_command(DataModel::W3CVcDataModelV1_1, "  ", Status::Draft, vec![], None, None));
    assert_eq!(r, Err(TemplateError::MissingTitle));
}

#[test]
fn test_create_template_rejects_archived_status_on_create() {
    let r = decide(&Template::default(), create_command(DataModel::W3CVcDataModelV1_1, "Test", Status::Archived, vec![], None, None));
    assert_eq!(error_message(r), "Invalid status on create: only Draft or Published are allowed");
}

#[test]
fn create_trims_title_and_defaults_type_and_expiration() {
    let events = decide(
        &Template::default(),
        create_command(DataModel::W3CVcDataModelV2_0, "  Padded  ", Status::Published, vec![], None, None),
    )
    .unwrap();
    match &events[0] {
        TemplateEvent::TemplateCreated { title, type_, credential_expiration, status, .. } => {
            assert_eq!(title, "Padded");
            assert_eq!(type_, &strings(&["VerifiableCredential"]));
            assert_eq!(credential_expiration, &Expiration::Duration(s("P90D")));
            assert_eq!(*status, Status::Published);
        }
        other => panic!("unexpected event {other:?}"),
    }
}

#[test]
fn test_update_title_with_empty_string() {
    let t = with_status(Status::Draft);
    let r = decide(&t, TemplateCommand::UpdateTitle { template_id: s("template_id"), title: s("   ") });
    assert_eq!(error_message(r), "A title is required when creating or updating a template");
}

#[test]
fn test_update_title_on_archived_template_is_rejected() {
    let t = with_status(Status::Archived);
    let r = decide(&t, TemplateCommand::UpdateTitle { template_id: s("template_id"), title: s("Updated title") });
    assert_eq!(error_message(r), "Archived templates are immutable except for status changes");
}

#[test]
fn test_update_status_from_published_to_draft_is_rejected() {
    let t = with_status(Status::Published);
    let r = decide(&t, TemplateCommand::UpdateStatus { template_id: s("template_id"), status: Status::Draft });
    assert_eq!(
        error_message(r),
        "Invalid status transition: cannot transition template status from `published` to `draft`"
    );
}

#[test]
fn test_update_status_from_archived_to_published_is_allowed() {
    let t = with_status(Status::Archived);
    let r = decide(&t, TemplateCommand::UpdateStatus { template_id: s("template_id"), status: Status::Published });
    assert_eq!(
        r,
        Ok(vec![TemplateEvent::StatusUpdated { template_id: s("template_id"), status: Status::Published, modified_at: s(NOW) }])
    );
}

#[test]
fn test_update_status_reject_invalid_archived_to_draft() {
    let t = with_status(Status::Archived);
    let r = decide(&t, TemplateCommand::UpdateStatus { template_id: s("template_id"), status: Status::Draft });
    assert_eq!(
        error_message(r),
        "Invalid status transition: cannot transition template status from `archived` to `draft`"
    );
}

#[test]
fn test_update_tags_normalizes_input() {
    let t = with_status(Status::Draft);
    let r = decide(
        &t,
        TemplateCommand::UpdateTags {
            template_id: s("template_id"),
            tags: strings(&[" alpha ", "", "beta", "alpha", "beta "]),
        },
    );
    assert_eq!(
        r,
        Ok(vec![TemplateEvent::TagsUpdated {
            template_id: s("template_id"),
            tags: strings(&["alpha", "beta"]),
            modified_at: s(NOW),
        }])
    );
}

#[test]
fn update_tags_with_only_blank_entries_clears_tags_once_applied() {
    let mut t = with_status(Status::Draft);
    let events = decide(&t, TemplateCommand::UpdateTags { template_id: s("template_id"), tags: strings(&["  ", ""]) }).unwrap();
    for e in events {
        t.apply(e);
    }
    assert_eq!(t.tags, None);
}

#[test]
fn test_update_description_trims_whitespace() {
    let t = with_status(Status::Draft);
    let r = decide(
        &t,
        TemplateCommand::UpdateDescription { template_id: s("template_id"), description: s("  trimmed description  ") },
    );
    assert_eq!(
        r,
        Ok(vec![TemplateEvent::DescriptionUpdated {
            template_id: s("template_id"),
            description: s("trimmed description"),
            modified_at: s(NOW),
        }])
    );
}

#[test]
fn test_update_type_normalizes_standard_input() {
    let t = given(vec![created(
        "template_id",
        DataModel::W3CVcDataModelV2_0,
        Status::Draft,
        strings(&["VerifiableCredential"]),
        None,
        None,
    )]);
    let r = decide(
        &t,
        TemplateCommand::UpdateType {
            template_id: s("template_id"),
            type_: strings(&["ExampleCredential", "VerifiableCredential", "ExampleCredential", ""]),
        },
    );
    assert_eq!(
        r,
        Ok(vec![TemplateEvent::TypeUpdated {
            template_id: s("template_id"),
            type_: strings(&["VerifiableCredential", "ExampleCredential"]),
            modified_at: s(NOW),
        }])
    );
}

#[test]
fn test_update_type_rejects_conflicting_open_badges_subtypes() {
    let t = given(vec![created(
        "template_id",
        DataModel::OpenBadges3_0,
        Status::Draft,
        strings(&["VerifiableCredential", "OpenBadgeCredential"]),
        None,
        None,
    )]);
    let r = decide(
        &t,
        TemplateCommand::UpdateType {
            template_id: s("template_id"),
            type_: strings(&["VerifiableCredential", "OpenBadgeCredential", "AchievementCredential"]),
        },
    );
    assert_eq!(
        error_message(r),
        "Invalid type: OpenBadges type cannot include both `OpenBadgeCredential` and `AchievementCredential`"
    );
}

#[test]
fn open_badges_type_defaults_and_picks_the_badge_type() {
    let t = given(vec![created(
        "template_id",
        DataModel::OpenBadges3_0,
        Status::Draft,
        strings(&["VerifiableCredential", "OpenBadgeCredential"]),
        None,
        None,
    )]);
    let r = decide(&t, TemplateCommand::UpdateType { template_id: s("template_id"), type_: strings(&["  "]) });
    assert_eq!(
        r,
        Ok(vec![TemplateEvent::TypeUpdated {
            template_id: s("template_id"),
            type_: strings(&["VerifiableCredential", "OpenBadgeCredential"]),
            modified_at: s(NOW),
        }])
    );
    let r = decide(
        &t,
        TemplateCommand::UpdateType {
            template_id: s("template_id"),
            type_: strings(&["AchievementCredential", "AchievementCredential"]),
        },
    );
    assert_eq!(
        r,
        Ok(vec![TemplateEvent::TypeUpdated {
            template_id: s("template_id"),
            type_: strings(&["VerifiableCredential", "AchievementCredential"]),
            modified_at: s(NOW),
        }])
    );
}

#[test]
fn open_badges_type_without_badge_subtype_defaults_to_open_badge_credential() {
    let t = given(vec![created(
        "template_id",
        DataModel::OpenBadges3_0,
        Status::Draft,
        strings(&["VerifiableCredential", "OpenBadgeCredential"]),
        None,
        None,
    )]);
    let r = decide(
        &t,
        TemplateCommand::UpdateType {
            template_id: s("template_id"),
            type_: strings(&["VerifiableCredential", "VerifiableCredential", "  "]),
        },
    );
    assert_eq!(
        r,
        Ok(vec![TemplateEvent::TypeUpdated {
            template_id: s("template_id"),
            type_: strings(&["VerifiableCredential", "OpenBadgeCredential"]),
            modified_at: s(NOW),
        }])
    );
}

#[test]
fn test_update_credential_expiration_emits_event() {
    let t = with_status(Status::Draft);
    let r = decide(
        &t,
        TemplateCommand::UpdateCredentialExpiration {
            template_id: s("template_id"),
            credential_expiration: Expiration::Duration(s("P30D")),
        },
    );
    assert_eq!(
        r,
        Ok(vec![TemplateEvent::CredentialExpirationUpdated {
            template_id: s("template_id"),
            credential_expiration: Expiration::Duration(s("P30D")),
            modified_at: s(NOW),
        }])
    );
}

#[test]
fn test_update_credential_expiration_rejects_invalid_iso8601() {
    let t = with_status(Status::Draft);
    let r = decide(
        &t,
        TemplateCommand::UpdateCredentialExpiration {
            template_id: s("template_id"),
            credential_expiration: Expiration::Duration(s("not-a-duration")),
        },
    );
    assert_eq!(error_message(r), "Invalid expiration value: `not-a-duration` is not a valid ISO 8601 duration");
}

#[test]
fn update_credential_expiration_accepts_datetime_and_rejects_garbage() {
    let t = with_status(Status::Draft);
    let ok = decide(
        &t,
        TemplateCommand::UpdateCredentialExpiration {
            template_id: s("template_id"),
            credential_expiration: Expiration::DateTime(s("2026-12-31T23:59:59Z")),
        },
    );
    assert!(ok.is_ok());
    let refused = decide(
        &t,
        TemplateCommand::UpdateCredentialExpiration {
            template_id: s("template_id"),
            credential_expiration: Expiration::DateTime(s("tomorrow")),
        },
    );
    assert!(error_message(refused).starts_with("Invalid expiration value: `tomorrow` is not a valid ISO 8601 datetime: "));
}

#[test]
fn test_create_open_badges_template_rejects_extra_types() {
    let r = decide(
        &Template::default(),
        create_command(
            DataModel::OpenBadges3_0,
            "OB with extra types",
            Status::Draft,
            strings(&["VerifiableCredential", "OpenBadgeCredential", "ExtraType"]),
            Some(valid_ob_schema()),
            None,
        ),
    );
    assert_eq!(error_message(r), "Invalid type: OpenBadges type includes disallowed extra entries: [ExtraType]");
}

#[test]
fn test_create_open_badges_template_missing_required_achievement_properties() {
    let schema = json(
        r#"{ "type": "object", "properties": { "achievement": { "type": "object", "properties": { "description": { "type": "string" } } } } }"#,
    );
    let r = decide(
        &Template::default(),
        create_command(
            DataModel::OpenBadges3_0,
            "OB Missing Props",
            Status::Draft,
            strings(&["VerifiableCredential", "OpenBadgeCredential"]),
            Some(schema),
            None,
        ),
    );
    assert_eq!(
        error_message(r),
        "Missing required OpenBadges 3.0 schema properties: The following required fields must be present in the schema for OpenBadges 3.0 templates: [/achievement/criteria, /achievement/name]"
    );
}

#[test]
fn test_create_open_badges_template_with_array_type_in_schema() {
    let schema = json(
        r#"{
        "type": "object",
        "properties": {
            "achievement": {
                "type": "object",
                "properties": {
                    "name": { "type": "string" },
                    "description": { "type": "string" },
                    "criteria": { "type": "object", "properties": { "narrative": { "type": "string" }, "tags": { "type": "array" } } }
                }
            }
        }
    }"#,
    );
    let r = decide(
        &Template::default(),
        create_command(
            DataModel::OpenBadges3_0,
            "OB with array type",
            Status::Draft,
            strings(&["VerifiableCredential", "OpenBadgeCredential"]),
            Some(schema),
            None,
        ),
    );
    assert_eq!(
        error_message(r),
        "Invalid JSON Schema: Array types are not supported in template schemas. Define only object and scalar fields."
    );
}

#[test]
fn create_open_badges_template_marks_required_leaves_non_removable() {
    let events = decide(
        &Template::default(),
        create_command(
            DataModel::OpenBadges3_0,
            "Badge",
            Status::Draft,
            vec![],
            Some(valid_ob_schema()),
            None,
        ),
    )
    .unwrap();
    match &events[0] {
        TemplateEvent::TemplateCreated { schema_properties_attributes: Some(a), type_, schema: Some(stored), .. } => {
            assert_eq!(type_, &strings(&["VerifiableCredential", "OpenBadgeCredential"]));
            let mut got = entries(a);
            got.sort();
            assert_eq!(
                got,
                vec![
                    (s("/achievement/criteria/narrative"), false, true),
                    (s("/achievement/description"), false, true),
                    (s("/achievement/name"), false, true),
                ]
            );
            let achievement = stored.get("properties").unwrap().get("achievement").unwrap();
            let required = achievement.get("required").expect("required keys are listed");
            match required {
                Json::Array(items) => {
                    let mut names: Vec<String> = items
                        .iter()
                        .map(|i| match i {
                            Json::Str(x) => x.clone(),
                            other => panic!("unexpected {other:?}"),
                        })
                        .collect();
                    names.sort();
                    assert_eq!(names, strings(&["criteria", "description", "name"]));
                }
                other => panic!("unexpected {other:?}"),
            }
        }
        other => panic!("unexpected event {other:?}"),
    }
}

#[test]
fn test_create_open_badges_template_rejects_disallowed_properties() {
    let schema = json(
        r#"{
        "type": "object",
        "properties": {
            "achievement": {
                "type": "object",
                "properties": {
                    "name": { "type": "string" },
                    "description": { "type": "string" },
                    "criteria": { "type": "object", "properties": { "narrative": { "type": "string" } } },
                    "favouriteColour": { "type": "string" }
                }
            }
        }
    }"#,
    );
    let r = decide(
        &Template::default(),
        create_command(DataModel::OpenBadges3_0, "Badge", Status::Draft, vec![], Some(schema), None),
    );
    assert_eq!(
        error_message(r),
        "Disallowed OpenBadges 3.0 schema properties: The following properties are not allowed for OpenBadges 3.0 templates at path `/achievement`: [favouriteColour]"
    );
}

#[test]
fn test_create_open_badges_template_rejects_profile_email_without_format() {
    let schema = json(
        r#"{
        "type": "object",
        "properties": {
            "achievement": {
                "type": "object",
                "properties": {
                    "name": { "type": "string" },
                    "description": { "type": "string" },
                    "criteria": { "type": "object", "properties": { "narrative": { "type": "string" } } }
                }
            },
            "profile": { "type": "object", "properties": { "email": { "type": "string" } } }
        }
    }"#,
    );
    let r = decide(
        &Template::default(),
        create_command(DataModel::OpenBadges3_0, "Badge", Status::Draft, vec![], Some(schema), None),
    );
    assert_eq!(
        error_message(r),
        "Invalid type or format for OpenBadges 3.0 schema properties: The following fields do not match the required type/format: [/profile/email]"
    );
}

#[test]
fn test_delete_template_from_published_requires_archive_first() {
    let t = with_status(Status::Published);
    let r = decide(&t, TemplateCommand::DeleteTemplate { template_id: s("template_id") });
    assert_eq!(error_message(r), "Published templates must be archived before they can be deleted");
}

#[test]
fn test_delete_template_from_archived_is_allowed() {
    let t = with_status(Status::Archived);
    let r = decide(&t, TemplateCommand::DeleteTemplate { template_id: s("template_id") });
    assert_eq!(r, Ok(vec![TemplateEvent::TemplateDeleted { template_id: s("template_id") }]));
}

#[test]
fn test_deleted_template_status_is_terminal() {
    let t = given(vec![
        created("template_id", DataModel::W3CVcDataModelV1_1, Status::Draft, vec![], None, None),
        TemplateEvent::TemplateDeleted { template_id: s("template_id") },
    ]);
    let r = decide(&t, TemplateCommand::UpdateStatus { template_id: s("template_id"), status: Status::Published });
    assert_eq!(error_message(r), "Deleted templates are terminal and cannot be changed");
}

#[test]
fn draft_template_cannot_be_made_public() {
    let t = with_status(Status::Draft);
    let r = decide(&t, TemplateCommand::UpdateVisibility { template_id: s("template_id"), visibility: Visibility::Public });
    assert_eq!(error_message(r), "A template must not be in \"Draft\" stage when making it public");
    let p = with_status(Status::Published);
    let r = decide(&p, TemplateCommand::UpdateVisibility { template_id: s("template_id"), visibility: Visibility::Public });
    assert!(r.is_ok());
}

#[test]
fn test_create_template_with_invalid_schema() {
    let schema = json(r#"{ "type": "invalid_type" }"#);
    let r = decide(
        &Template::default(),
        create_command(DataModel::W3CVcDataModelV2_0, "Test", Status::Draft, vec![], Some(schema), None),
    );
    assert!(error_message(r).starts_with("Invalid JSON Schema: "));
}

#[test]
fn test_create_template_rejects_array_type() {
    let schema = json(r#"{ "type": "object", "properties": { "tags": { "type": "array" } } }"#);
    let r = decide(
        &Template::default(),
        create_command(DataModel::W3CVcDataModelV2_0, "Test", Status::Draft, vec![], Some(schema), None),
    );
    assert_eq!(
        error_message(r),
        "Invalid JSON Schema: Array types are not supported in template schemas. Define only object and scalar fields."
    );
}

#[test]
fn test_create_template_with_invalid_schema_properties_attributes() {
    let r = decide(
        &Template::default(),
        create_command(
            DataModel::W3CVcDataModelV2_0,
            "Test",
            Status::Draft,
            vec![],
            Some(name_schema()),
            Some(attrs(&[("/nonexistent", true, false), ("/another", false, false)])),
        ),
    );
    assert_eq!(
        error_message(r),
        "Invalid schema_properties_attributes key(s): The following keys do not match any field in schema.properties: [/another, /nonexistent]"
    );
}

#[test]
fn test_create_template_with_attributes_but_no_schema() {
    let r = decide(
        &Template::default(),
        create_command(DataModel::W3CVcDataModelV2_0, "Test", Status::Draft, vec![], None, Some(attrs(&[("/name", true, false)]))),
    );
    assert_eq!(
        error_message(r),
        "Invalid schema_properties_attributes key(s): The following keys do not match any field in schema.properties: [/name]"
    );
}

#[test]
fn test_create_template_rejects_schema_properties_attributes_for_vc_1_1() {
    let r = decide(
        &Template::default(),
        create_command(
            DataModel::W3CVcDataModelV1_1,
            "Test",
            Status::Draft,
            vec![],
            Some(name_schema()),
            Some(attrs(&[("/name", true, false)])),
        ),
    );
    assert_eq!(error_message(r), "schemaPropertiesAttributes are not allowed for W3C VC 1.1 templates");
}

#[test]
fn create_with_empty_attributes_stores_none() {
    let events = decide(
        &Template::default(),
        create_command(DataModel::W3CVcDataModelV2_0, "Test", Status::Draft, vec![], Some(name_schema()), Some(AttributeMap::new())),
    )
    .unwrap();
    match &events[0] {
        TemplateEvent::TemplateCreated { schema_properties_attributes, .. } => assert!(schema_properties_attributes.is_none()),
        other => panic!("unexpected event {other:?}"),
    }
}

#[test]
fn test_create_template_with_nested_schema_and_jp_attribute_key() {
    let schema = json(
        r#"{ "type": "object", "properties": { "address": { "type": "object", "properties": { "street": { "type": "string" } } }, "a/b": { "type": "string" } } }"#,
    );
    let r = decide(
        &Template::default(),
        create_command(
            DataModel::W3CVcDataModelV2_0,
            "Test",
            Status::Draft,
            vec![],
            Some(schema),
            Some(attrs(&[("/address/street", true, false), ("/a~1b", true, false)])),
        ),
    );
    assert!(r.is_ok());
}

#[test]
fn test_create_template_rejects_attribute_key_pointing_to_object_node() {
    let schema = json(
        r#"{ "type": "object", "properties": { "address": { "type": "object", "properties": { "street": { "type": "string" } } } } }"#,
    );
    let r = decide(
        &Template::default(),
        create_command(DataModel::W3CVcDataModelV2_0, "Test", Status::Draft, vec![], Some(schema), Some(attrs(&[("/address", true, false)]))),
    );
    assert_eq!(
        error_message(r),
        "Invalid schema_properties_attributes key(s): The following keys do not match any field in schema.properties: [/address]"
    );
}

fn with_schema_and_attributes(data_model: DataModel, schema: Json, attributes: AttributeMap) -> Template {
    given(vec![created("template_id", data_model, Status::Draft, vec![], Some(schema), Some(attributes))])
}

#[test]
fn test_update_field_attributes_with_invalid_keys() {
    let t = with_schema_and_attributes(DataModel::W3CVcDataModelV2_0, name_schema(), attrs(&[("/name", false, false)]));
    let r = decide(
        &t,
        TemplateCommand::UpdateSchemaPropertiesAttributes {
            template_id: s("template_id"),
            schema_properties_attributes: attrs(&[("/unknown", true, false)]),
        },
    );
    assert_eq!(
        error_message(r),
        "Invalid schema_properties_attributes key(s): The following keys do not match any field in schema.properties: [/unknown]"
    );
}

#[test]
fn test_update_field_attributes_rejected_for_vc_1_1() {
    let t = with_status(Status::Draft);
    let r = decide(
        &t,
        TemplateCommand::UpdateSchemaPropertiesAttributes {
            template_id: s("template_id"),
            schema_properties_attributes: attrs(&[("/name", true, false)]),
        },
    );
    assert_eq!(error_message(r), "schemaPropertiesAttributes are not allowed for W3C VC 1.1 templates");
}

#[test]
fn test_update_field_attributes_rejects_duplicate_trimmed_keys() {
    let t = with_schema_and_attributes(DataModel::W3CVcDataModelV2_0, name_schema(), attrs(&[("/name", false, false)]));
    let r = decide(
        &t,
        TemplateCommand::UpdateSchemaPropertiesAttributes {
            template_id: s("template_id"),
            schema_properties_attributes: attrs(&[("/name", true, false), (" /name ", false, false)]),
        },
    );
    assert_eq!(error_message(r), "Duplicate schemaPropertiesAttributes key after trimming: `/name`");
}

#[test]
fn test_update_attributes_cannot_change_immutable_flag() {
    let schema = json(r#"{ "type": "object", "properties": { "name": { "type": "string" }, "age": { "type": "string" } } }"#);
    let t = with_schema_and_attributes(
        DataModel::W3CVcDataModelV2_0,
        schema,
        attrs(&[("/name", false, true), ("/age", false, false)]),
    );
    let r = decide(
        &t,
        TemplateCommand::UpdateSchemaPropertiesAttributes {
            template_id: s("template_id"),
            schema_properties_attributes: attrs(&[(" /name", true, false), ("/age", true, true)]),
        },
    );
    match r.unwrap().as_slice() {
        [TemplateEvent::SchemaPropertiesAttributesUpdated { schema_properties_attributes, modified_at, .. }] => {
            assert_eq!(modified_at, NOW);
            assert_eq!(entries(schema_properties_attributes), vec![(s("/name"), true, true), (s("/age"), true, false)]);
        }
        other => panic!("unexpected events {other:?}"),
    }
}

#[test]
fn test_update_schema_with_invalid_schema() {
    let t = with_status(Status::Draft);
    let r = decide(&t, TemplateCommand::UpdateSchema { template_id: s("template_id"), schema: json(r#"{ "type": 12 }"#) });
    assert!(error_message(r).starts_with("Invalid JSON Schema: "));
}

#[test]
fn test_update_schema_rejects_array_type() {
    let t = with_status(Status::Draft);
    let r = decide(
        &t,
        TemplateCommand::UpdateSchema {
            template_id: s("template_id"),
            schema: json(r#"{ "type": "object", "properties": { "list": { "type": "array" } } }"#),
        },
    );
    assert_eq!(
        error_message(r),
        "Invalid JSON Schema: Array types are not supported in template schemas. Define only object and scalar fields."
    );
}

#[test]
fn test_update_schema_with_valid_schema() {
    let t = with_status(Status::Draft);
    let r = decide(&t, TemplateCommand::UpdateSchema { template_id: s("template_id"), schema: name_schema() });
    assert_eq!(
        r,
        Ok(vec![TemplateEvent::SchemaUpdated { template_id: s("template_id"), schema: name_schema(), modified_at: s(NOW) }])
    );
}

#[test]
fn test_update_schema_prunes_attributes() {
    let schema = json(r#"{ "type": "object", "properties": { "name": { "type": "string" }, "age": { "type": "string" } } }"#);
    let t = with_schema_and_attributes(
        DataModel::W3CVcDataModelV2_0,
        schema,
        attrs(&[("/name", true, false), ("/age", false, false)]),
    );
    let r = decide(&t, TemplateCommand::UpdateSchema { template_id: s("template_id"), schema: name_schema() }).unwrap();
    assert_eq!(r.len(), 2);
    assert_eq!(r[0], TemplateEvent::SchemaUpdated { template_id: s("template_id"), schema: name_schema(), modified_at: s(NOW) });
    match &r[1] {
        TemplateEvent::SchemaPropertiesAttributesUpdated { template_id, schema_properties_attributes, modified_at } => {
            assert_eq!(template_id, "template_id");
            assert_eq!(modified_at, NOW);
            assert_eq!(entries(schema_properties_attributes), vec![(s("/name"), true, false)]);
        }
        other => panic!("unexpected event {other:?}"),
    }
}

#[test]
fn test_update_schema_no_prune_needed() {
    let t = with_schema_and_attributes(DataModel::W3CVcDataModelV2_0, name_schema(), attrs(&[("/name", true, false)]));
    let schema = json(r#"{ "type": "object", "properties": { "name": { "type": "string" }, "email": { "type": "string" } } }"#);
    let r = decide(&t, TemplateCommand::UpdateSchema { template_id: s("template_id"), schema }).unwrap();
    assert_eq!(r.len(), 1);
}

#[test]
fn test_update_schema_rejects_removal_of_immutable_property() {
    let schema = json(r#"{ "type": "object", "properties": { "name": { "type": "string" }, "age": { "type": "string" } } }"#);
    let t = with_schema_and_attributes(
        DataModel::W3CVcDataModelV2_0,
        schema,
        attrs(&[("/name", false, false), ("/age", false, true)]),
    );
    let r = decide(&t, TemplateCommand::UpdateSchema { template_id: s("template_id"), schema: name_schema() });
    assert_eq!(
        error_message(r),
        "Cannot remove immutable schema properties: The following non-removable properties cannot be removed from the schema: [/age]"
    );
}

#[test]
fn test_update_schema_allows_removal_of_non_immutable_property() {
    let schema = json(r#"{ "type": "object", "properties": { "name": { "type": "string" }, "age": { "type": "string" } } }"#);
    let t = with_schema_and_attributes(
        DataModel::W3CVcDataModelV2_0,
        schema,
        attrs(&[("/name", false, true), ("/age", false, false)]),
    );
    let r = decide(&t, TemplateCommand::UpdateSchema { template_id: s("template_id"), schema: name_schema() }).unwrap();
    assert_eq!(r.len(), 2);
}

#[test]
fn test_update_schema_rejects_disallowed_open_badges_properties() {
    let t = given(vec![created("template_id", DataModel::OpenBadges3_0, Status::Draft, vec![], Some(valid_ob_schema()), None)]);
    let schema = json(
        r#"{
        "type": "object",
        "properties": {
            "achievement": {
                "type": "object",
                "properties": {
                    "name": { "type": "string" },
                    "description": { "type": "string" },
                    "criteria": { "type": "object", "properties": { "narrative": { "type": "string" } } }
                }
            },
            "hobby": { "type": "string" }
        }
    }"#,
    );
    let r = decide(&t, TemplateCommand::UpdateSchema { template_id: s("template_id"), schema });
    assert_eq!(
        error_message(r),
        "Disallowed OpenBadges 3.0 schema properties: The following properties are not allowed for OpenBadges 3.0 templates at path `/`: [hobby]"
    );
}

#[test]
fn open_badges_required_leaf_paths_follow_the_schema() {
    let paths = ssi_agent::template::open_badges::open_badges_required_leaf_paths(&ob());
    assert_eq!(paths, strings(&["/achievement/criteria/narrative", "/achievement/description", "/achievement/name"]));
    assert!(paths.windows(2).all(|w| w[0] < w[1]));
    assert!(paths.iter().all(|p| p.starts_with('/')));
    assert_eq!(ssi_agent::template::open_badges::open_badges_required_leaf_paths(&ob()), paths);
}

#[test]
fn operation_names_and_event_types() {
    let c = TemplateCommand::DeleteTemplate { template_id: s("x") };
    assert_eq!(c.operation_name(), "library.templates.delete");
    let c = TemplateCommand::UpdateSchemaPropertiesAttributes { template_id: s("x"), schema_properties_attributes: AttributeMap::new() };
    assert_eq!(c.operation_name(), "library.templates.schema_properties.update");
    let e = TemplateEvent::TemplateDeleted { template_id: s("x") };
    assert_eq!(e.event_type(), "TemplateDeleted");
    assert_eq!(e.event_version(), "1");
}

#[test]
fn handle_stamps_the_current_time() {
    let t = with_status(Status::Draft);
    let r = t.handle(TemplateCommand::UpdateTitle { template_id: s("template_id"), title: s("Now") }, &ob()).unwrap();
    match &r[0] {
        TemplateEvent::TitleUpdated { title, modified_at, .. } => {
            assert_eq!(title, "Now");
            assert!(chrono::DateTime::parse_from_rfc3339(modified_at).is_ok());
        }
        other => panic!("unexpected event {other:?}"),
    }
}

#[test]
fn property_attribute_accessors() {
    let a = PropertyAttribute::new(true, true);
    assert!(a.is_selectively_disclosable());
    let b = a.strip_non_removable();
    assert!(b.selectively_disclosable);
    assert!(!b.non_removable);
}
