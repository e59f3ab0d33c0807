use vstd::prelude::*;
use crate::clock::now_rfc3339;
use crate::json::{member, member_get, view_members, Json, JsonView};
use crate::template::command::TemplateCommand;
use crate::template::error::{fits, TemplateError, TemplateErrorView};
use crate::template::event::TemplateEvent;
use crate::template::normalize::{
    deletion_check, editable_check, ensure_status_transition_allowed, ensure_template_can_be_deleted,
    ensure_template_editable, expiration_check, iso8601_duration_accepts, normalize_and_validate_type,
    normalize_tags, normalized_tags, normalized_type, transition_check, validate_expiration,
};
use crate::template::open_badges::{
    ensure_schema_required_keys, open_badges_required_leaf_paths, required_leaf_paths,
    required_properties_check, schema_properties_check, validate_open_badges_required_properties,
    validate_open_badges_schema_properties, with_required_keys,
};
use crate::template::schema::{
    array_check, attributes_check, collect_leaf_paths, enforce_non_removable_flag, first_trim_collision,
    kept_non_removable, leaf_paths, opt_attributes_map, opt_schema_view, schema_check, schema_leaf_paths,
    trim_and_deduplicate_attribute_keys, trimmed_entries, validate_json_schema,
    validate_schema_no_array_types, validate_schema_properties_attributes,
};
use crate::template::types::{
    default_expiration_text, entries_within, entry_keys, has_default_content, AttributeMap, DataModel,
    Expiration, PropertyAttribute, Status, Template, Visibility,
};
use crate::text::{contains_string, join, seq_join, trim_string, trimmed};

verus! {

/// The template after a non-deleting event; a deletion is described by [`Template::apply`].
pub open spec fn applied(t: Template, e: TemplateEvent) -> Template {
    match e {
        TemplateEvent::TemplateCreated {
            template_id,
            source_template_id,
            title,
            display,
            data_model,
            holder_type,
            modified_at,
            tags,
            status,
            visibility,
            credential_expiration,
            description,
            type_,
            schema,
            schema_properties_attributes,
            holder_authorization,
        } => Template {
            template_id,
            source_template_id,
            title,
            display,
            data_model,
            holder_type,
            modified_at: Some(modified_at),
            tags,
            status,
            visibility,
            credential_expiration,
            description,
            type_,
            schema,
            schema_properties_attributes,
            holder_authorization,
        },
        TemplateEvent::TitleUpdated { title, modified_at, .. } => Template {
            title,
            modified_at: Some(modified_at),
            ..t
        },
        TemplateEvent::DisplayUpdated { display, modified_at, .. } => Template {
            display: Some(display),
            modified_at: Some(modified_at),
            ..t
        },
        TemplateEvent::TagsUpdated { tags, modified_at, .. } => Template {
            tags: if tags@.len() == 0 { None } else { Some(tags) },
            modified_at: Some(modified_at),
            ..t
        },
        TemplateEvent::StatusUpdated { status, modified_at, .. } => Template {
            status,
            modified_at: Some(modified_at),
            ..t
        },
        TemplateEvent::VisibilityUpdated { visibility, modified_at, .. } => Template {
            visibility,
            modified_at: Some(modified_at),
            ..t
        },
        TemplateEvent::DescriptionUpdated { description, modified_at, .. } => Template {
            description: if description@.len() == 0 { None } else { Some(description) },
            modified_at: Some(modified_at),
            ..t
        },
        TemplateEvent::TypeUpdated { type_, modified_at, .. } => Template {
            type_,
            modified_at: Some(modified_at),
            ..t
        },
        TemplateEvent::SchemaUpdated { schema, modified_at, .. } => Template {
            schema: Some(schema),
            modified_at: Some(modified_at),
            ..t
        },
        TemplateEvent::SchemaPropertiesAttributesUpdated { schema_properties_attributes, modified_at, .. } => Template {
            schema_properties_attributes: Some(schema_properties_attributes),
            modified_at: Some(modified_at),
            ..t
        },
        TemplateEvent::CredentialExpirationUpdated { credential_expiration, modified_at, .. } => Template {
            credential_expiration,
            modified_at: Some(modified_at),
            ..t
        },
        TemplateEvent::HolderAuthorizationUpdated { holder_authorization, modified_at, .. } => Template {
            holder_authorization,
            modified_at: Some(modified_at),
            ..t
        },
        TemplateEvent::TemplateDeleted { .. } => t,
    }
}

impl Template {
    /// Applies an event to the template. A deletion resets every field to its default,
    /// keeping the event's id and the `Deleted` status.
    pub fn apply(&mut self, event: TemplateEvent)
        ensures
            match event {
                TemplateEvent::TemplateDeleted { template_id } => {
                    &&& final(self).template_id == template_id
                    &&& final(self).status == Status::Deleted
                    &&& has_default_content(*final(self))
                },
                _ => *final(self) == applied(*old(self), event),
            },
    {
        match event {
            TemplateEvent::TemplateCreated {
                template_id,
                source_template_id,
                title,
                display,
                data_model,
                holder_type,
                modified_at,
                tags,
                status,
                visibility,
                credential_expiration,
                description,
                type_,
                schema,
                schema_properties_attributes,
                holder_authorization,
            } => {
                self.template_id = template_id;
                self.source_template_id = source_template_id;
                self.title = title;
                self.display = display;
                self.data_model = data_model;
                self.holder_type = holder_type;
                self.modified_at = Some(modified_at);
                self.tags = tags;
                self.status = status;
                self.visibility = visibility;
                self.credential_expiration = credential_expiration;
                self.description = description;
                self.type_ = type_;
                self.schema = schema;
                self.schema_properties_attributes = schema_properties_attributes;
                self.holder_authorization = holder_authorization;
            },
            TemplateEvent::TitleUpdated { title, modified_at, .. } => {
                self.title = title;
                self.modified_at = Some(modified_at);
            },
            TemplateEvent::DisplayUpdated { display, modified_at, .. } => {
                self.display = Some(display);
                self.modified_at = Some(modified_at);
            },
            TemplateEvent::TagsUpdated { tags, modified_at, .. } => {
                self.tags = if tags.len() == 0 { None } else { Some(tags) };
                self.modified_at = Some(modified_at);
            },
            TemplateEvent::StatusUpdated { status, modified_at, .. } => {
                self.status = status;
                self.modified_at = Some(modified_at);
            },
            TemplateEvent::VisibilityUpdated { visibility, modified_at, .. } => {
                self.visibility = visibility;
                self.modified_at = Some(modified_at);
            },
            TemplateEvent::DescriptionUpdated { description, modified_at, .. } => {
                self.description = if description.unicode_len() == 0 { None } else { Some(description) };
                self.modified_at = Some(modified_at);
            },
            TemplateEvent::TypeUpdated { type_, modified_at, .. } => {
                self.type_ = type_;
                self.modified_at = Some(modified_at);
            },
            TemplateEvent::SchemaUpdated { schema, modified_at, .. } => {
                self.schema = Some(schema);
                self.modified_at = Some(modified_at);
            },
            TemplateEvent::SchemaPropertiesAttributesUpdated { schema_properties_attributes, modified_at, .. } => {
                self.schema_properties_attributes = Some(schema_properties_attributes);
                self.modified_at = Some(modified_at);
            },
            TemplateEvent::CredentialExpirationUpdated { credential_expiration, modified_at, .. } => {
                self.credential_expiration = credential_expiration;
                self.modified_at = Some(modified_at);
            },
            TemplateEvent::HolderAuthorizationUpdated { holder_authorization, modified_at, .. } => {
                self.holder_authorization = holder_authorization;
                self.modified_at = Some(modified_at);
            },
            TemplateEvent::TemplateDeleted { template_id } => {
                *self = Template::default();
                self.template_id = template_id;
                self.status = Status::Deleted;
            },
        }
    }
}


/// The first failing check, else `rest`.
pub open spec fn then_check(
    first: Result<(), TemplateErrorView>,
    rest: Result<(), TemplateErrorView>,
) -> Result<(), TemplateErrorView> {
    match first {
        Err(e) => Err(e),
        Ok(_) => rest,
    }
}

/// Whether `r` is the refusal `e`.
pub open spec fn refuses(r: Result<Vec<TemplateEvent>, TemplateError>, e: TemplateErrorView) -> bool {
    r matches Err(x) && fits(x@, e)
}

/// The events of `r`; none for a refusal.
pub open spec fn events_of(r: Result<Vec<TemplateEvent>, TemplateError>) -> Seq<TemplateEvent> {
    match r {
        Ok(v) => v@,
        Err(_) => Seq::empty(),
    }
}

/// The one event of `r`, when `r` succeeded with exactly one.
pub open spec fn sole_event(r: Result<Vec<TemplateEvent>, TemplateError>) -> Option<TemplateEvent> {
    if r is Ok && events_of(r).len() == 1 {
        Some(events_of(r)[0])
    } else {
        None
    }
}

/// `r` is the refusal of the failing `check`, or, when it passes, `r` meets `ok`.
pub open spec fn checked_then(
    check: Result<(), TemplateErrorView>,
    r: Result<Vec<TemplateEvent>, TemplateError>,
    ok: bool,
) -> bool {
    match check {
        Err(e) => refuses(r, e),
        Ok(_) => ok,
    }
}

/// `Ok` when `r` is, else its error.
pub open spec fn check_of(r: Result<Seq<Seq<char>>, TemplateErrorView>) -> Result<(), TemplateErrorView> {
    match r {
        Ok(_) => Ok(()),
        Err(e) => Err(e),
    }
}

/// The views of optional strings.
pub open spec fn opt_strings_view(o: Option<Vec<String>>) -> Option<Seq<Seq<char>>> {
    match o {
        Some(v) => Some(v.deep_view()),
        None => None,
    }
}

/// `{"type": "object"}`.
pub open spec fn object_type_schema() -> JsonView {
    JsonView::Object(seq![("type"@, JsonView::Str("object"@))])
}

/// `v` with the member `key: x` added at the end when `v` is an object without `key`.
pub open spec fn with_member_if_absent(v: JsonView, key: Seq<char>, x: JsonView) -> JsonView {
    match v {
        JsonView::Object(ms) => if member(ms, key) is None {
            JsonView::Object(ms.push((key, x)))
        } else {
            v
        },
        _ => v,
    }
}

/// The schema of a new OpenBadges template before its required keys are listed: the given
/// schema or `{"type": "object"}`, with `"type": "object"` and empty `properties` added when
/// it is an object without them.
pub open spec fn ob_base_schema(s: Option<JsonView>) -> JsonView {
    let base = match s {
        Some(v) => v,
        None => object_type_schema(),
    };
    with_member_if_absent(
        with_member_if_absent(base, "type"@, JsonView::Str("object"@)),
        "properties"@,
        JsonView::Object(Seq::empty()),
    )
}

/// The schema stored with a new template.
pub open spec fn creation_schema(dm: DataModel, s: Option<JsonView>, ob: JsonView) -> Option<JsonView> {
    if dm == DataModel::OpenBadges3_0 {
        Some(with_required_keys(ob_base_schema(s), ob))
    } else {
        s
    }
}

/// The checks a schema passes before it is stored.
pub open spec fn stored_schema_check(dm: DataModel, s: JsonView, ob: JsonView) -> Result<(), TemplateErrorView> {
    then_check(
        schema_check(s),
        then_check(
            array_check(s),
            if dm == DataModel::OpenBadges3_0 {
                schema_properties_check(s, ob)
            } else {
                Ok(())
            },
        ),
    )
}

/// Whether the default expiration, `P90D`, is accepted.
pub open spec fn default_duration_check() -> Result<(), TemplateErrorView> {
    if iso8601_duration_accepts(default_expiration_text()) {
        Ok(())
    } else {
        Err(TemplateErrorView::InvalidExpiration(
            "`"@ + default_expiration_text() + "` is not a valid ISO 8601 duration"@,
        ))
    }
}

/// The check of the expiration of a new template; none given means the default.
pub open spec fn creation_expiration_check(e: Option<Expiration>) -> Result<(), TemplateErrorView> {
    match e {
        Some(x) => expiration_check(x),
        None => default_duration_check(),
    }
}

/// Whether attributes were given and there is at least one.
pub open spec fn non_empty_attributes(a: Option<AttributeMap>) -> bool {
    a matches Some(m) && m.entries_seq().len() > 0
}

/// The keys of given attributes; none when none were given.
pub open spec fn given_keys(a: Option<AttributeMap>) -> Seq<Seq<char>> {
    match a {
        Some(m) => m.keys_seq(),
        None => Seq::empty(),
    }
}

/// The checks a new template passes, in order; the first that fails is the refusal.
pub open spec fn creation_check(
    status: Status,
    title: Seq<char>,
    types: Seq<Seq<char>>,
    dm: DataModel,
    exp: Option<Expiration>,
    attrs: Option<AttributeMap>,
    schema: Option<JsonView>,
    ob: JsonView,
) -> Result<(), TemplateErrorView> {
    if status == Status::Archived || status == Status::Deleted {
        Err(TemplateErrorView::InvalidStatusOnCreate)
    } else if trimmed(title).len() == 0 {
        Err(TemplateErrorView::MissingTitle)
    } else {
        then_check(
            check_of(normalized_type(types, dm)),
            then_check(
                creation_expiration_check(exp),
                then_check(
                    if dm == DataModel::W3CVcDataModelV1_1 && non_empty_attributes(attrs) {
                        Err(TemplateErrorView::SchemaPropertiesAttributesNotAllowed)
                    } else {
                        Ok(())
                    },
                    then_check(
                        if dm == DataModel::OpenBadges3_0 {
                            required_properties_check(ob_base_schema(schema), ob)
                        } else {
                            Ok(())
                        },
                        then_check(
                            match creation_schema(dm, schema, ob) {
                                Some(s) => stored_schema_check(dm, s, ob),
                                None => Ok(()),
                            },
                            if non_empty_attributes(attrs) {
                                attributes_check(creation_schema(dm, schema, ob), given_keys(attrs))
                            } else {
                                Ok(())
                            },
                        ),
                    ),
                ),
            ),
        )
    }
}

/// The attributes that a new OpenBadges template stores: every leaf path of its schema gets
/// an entry, keeping a given entry's `selectively_disclosable` (else `false`), and is
/// non-removable exactly when it is one of the required OpenBadges leaf paths.
pub open spec fn populated_attributes(
    given: Map<Seq<char>, PropertyAttribute>,
    leaves: Seq<Seq<char>>,
    required: Seq<Seq<char>>,
) -> Map<Seq<char>, PropertyAttribute> {
    Map::new(
        |k: Seq<char>| leaves.contains(k) || given.contains_key(k),
        |k: Seq<char>|
            if leaves.contains(k) {
                PropertyAttribute {
                    selectively_disclosable: given.contains_key(k) && given[k].selectively_disclosable,
                    non_removable: required.contains(k),
                }
            } else {
                given[k]
            },
    )
}

/// The map of optional attributes; empty when none are given.
pub open spec fn attributes_map_or_empty(a: Option<AttributeMap>) -> Map<Seq<char>, PropertyAttribute> {
    match a {
        Some(m) => m.as_map(),
        None => Map::empty(),
    }
}

/// Whether `stored` are the attributes a new template keeps of the given ones.
pub open spec fn created_attributes(
    dm: DataModel,
    given: Option<AttributeMap>,
    schema: Option<JsonView>,
    ob: JsonView,
    stored: Option<AttributeMap>,
) -> bool {
    if dm == DataModel::OpenBadges3_0 {
        stored matches Some(m) && m.as_map() == populated_attributes(
            attributes_map_or_empty(given),
            schema_leaf_paths(creation_schema(dm, schema, ob)),
            required_leaf_paths(ob),
        )
    } else if non_empty_attributes(given) {
        stored == given
    } else {
        stored is None
    }
}

/// Whether `stored` is the expiration of a new template given `given`.
pub open spec fn created_expiration(given: Option<Expiration>, stored: Expiration) -> bool {
    match given {
        Some(e) => stored == e,
        None => stored matches Expiration::Duration(d) && d@ == default_expiration_text(),
    }
}

/// What creating a template decides, at time `m`.
pub open spec fn creation_decided(
    c: TemplateCommand,
    ob: JsonView,
    m: Seq<char>,
    r: Result<Vec<TemplateEvent>, TemplateError>,
) -> bool {
    match c {
        TemplateCommand::CreateNewTemplate {
            template_id,
            source_template_id,
            title,
            display,
            data_model,
            holder_type,
            tags,
            status,
            visibility,
            credential_expiration,
            description,
            type_,
            schema,
            schema_properties_attributes,
            holder_authorization,
        } => checked_then(
            creation_check(
                status,
                title@,
                type_.deep_view(),
                data_model,
                credential_expiration,
                schema_properties_attributes,
                opt_schema_view(schema),
                ob,
            ),
            r,
            sole_event(r) matches Some(TemplateEvent::TemplateCreated {
                template_id: e_id,
                source_template_id: e_source,
                title: e_title,
                display: e_display,
                data_model: e_dm,
                holder_type: e_holder,
                modified_at: e_m,
                tags: e_tags,
                status: e_status,
                visibility: e_visibility,
                credential_expiration: e_exp,
                description: e_description,
                type_: e_type,
                schema: e_schema,
                schema_properties_attributes: e_attrs,
                holder_authorization: e_auth,
            }) && {
                &&& e_id == template_id
                &&& e_source == source_template_id
                &&& e_title@ == trimmed(title@)
                &&& e_display == display
                &&& e_dm == data_model
                &&& e_holder == holder_type
                &&& e_m@ == m
                &&& opt_strings_view(e_tags) == normalized_tags(opt_strings_view(tags))
                &&& e_status == status
                &&& e_visibility == visibility
                &&& created_expiration(credential_expiration, e_exp)
                &&& e_description == description
                &&& normalized_type(type_.deep_view(), data_model) == Ok::<Seq<Seq<char>>, TemplateErrorView>(
                    e_type.deep_view(),
                )
                &&& opt_schema_view(e_schema) == creation_schema(data_model, opt_schema_view(schema), ob)
                &&& created_attributes(data_model, schema_properties_attributes, opt_schema_view(schema), ob, e_attrs)
                &&& e_auth == holder_authorization
            },
        ),
        _ => false,
    }
}


fn object_type_json() -> (r: Json)
    ensures
        r@ == object_type_schema(),
{
    let mut ms: Vec<(String, Json)> = Vec::new();
    let k = String::from_str("type");
    let v = Json::Str(String::from_str("object"));
    ms.push((k, v));
    proof {
        assert(ms@.last() == (k, v));
        assert(v@ == JsonView::Str("object"@));
        assert(ms@.drop_last() == Seq::<(String, Json)>::empty());
        assert(view_members(Seq::<(String, Json)>::empty()) == Seq::<(Seq<char>, JsonView)>::empty());
        assert(view_members(ms@) =~= seq![("type"@, JsonView::Str("object"@))]);
    }
    Json::Object(ms)
}

fn add_member_if_absent(v: Json, key: &str, x: Json) -> (r: Json)
    ensures
        r@ == with_member_if_absent(v@, key@, x@),
{
    match v {
        Json::Object(mut ms) => {
            let absent = member_get(&ms, key).is_none();
            if absent {
                let ghost before = ms@;
                ms.push((String::from_str(key), x));
                proof {
                    assert(ms@.drop_last() == before);
                }
            }
            Json::Object(ms)
        },
        other => other,
    }
}

/// The attributes of a new OpenBadges template: every leaf path of `schema` gets an entry,
/// keeping a given entry's `selectively_disclosable`, non-removable exactly when it is a
/// required OpenBadges leaf path.
fn populate_ob_attributes(attrs: Option<AttributeMap>, schema: &Json, ob: &Json) -> (r: AttributeMap)
    ensures
        r.as_map() == populated_attributes(
            attributes_map_or_empty(attrs),
            leaf_paths(schema@, Seq::empty()),
            required_leaf_paths(ob@),
        ),
{
    let leaves = collect_leaf_paths(schema);
    let required = open_badges_required_leaf_paths(ob);
    let ghost given = attributes_map_or_empty(attrs);
    let ghost lv = leaves.deep_view();
    let ghost rq = required.deep_view();
    let mut result = match attrs {
        Some(a) => a,
        None => AttributeMap::new(),
    };
    proof {
        if attrs is None {
            assert(result.as_map() =~= Map::<Seq<char>, PropertyAttribute>::empty());
        }
        assert(populated_attributes(given, lv.take(0), rq) =~= given);
    }
    let mut i: usize = 0;
    while i < leaves.len()
        invariant
            i <= leaves.len(),
            lv == leaves.deep_view(),
            rq == required.deep_view(),
            result.as_map() == populated_attributes(given, lv.take(i as int), rq),
        decreases leaves.len() - i,
    {
        let key = leaves[i].clone();
        let non_removable = contains_string(&required, &key);
        let selectively_disclosable = match result.get(key.as_str()) {
            Some(a) => a.selectively_disclosable,
            None => false,
        };
        let ghost cur = result.as_map();
        result.insert(key, PropertyAttribute { selectively_disclosable, non_removable });
        proof {
            let p0 = lv.take(i as int);
            let p1 = lv.take(i + 1);
            let k = lv[i as int];
            assert(key@ == k);
            assert forall|x: Seq<char>| p1.contains(x) == (p0.contains(x) || x == k) by {
                if p1.contains(x) {
                    let j = choose|j: int| 0 <= j < p1.len() && p1[j] == x;
                    if j < i {
                        assert(p0[j] == x);
                    }
                }
                if p0.contains(x) {
                    let j = choose|j: int| 0 <= j < p0.len() && p0[j] == x;
                    assert(p1[j] == x);
                }
                if x == k {
                    assert(p1[i as int] == x);
                }
            }
            assert(result.as_map() =~= populated_attributes(given, p1, rq));
        }
        i = i + 1;
    }
    assert(lv.take(leaves.len() as int) == lv);
    result
}

fn single(e: TemplateEvent) -> (r: Vec<TemplateEvent>)
    ensures
        r@ == seq![e],
{
    let mut v: Vec<TemplateEvent> = Vec::new();
    v.push(e);
    v
}

/// Decides the creation of a template at time `modified_at`.
#[verifier::rlimit(40)]
fn create_template(command: TemplateCommand, ob: &Json, modified_at: String) -> (r: Result<Vec<TemplateEvent>, TemplateError>)
    requires
        command is CreateNewTemplate,
    ensures
        creation_decided(command, ob@, modified_at@, r),
{
    match command {
        TemplateCommand::CreateNewTemplate {
            template_id,
            source_template_id,
            title,
            display,
            data_model,
            holder_type,
            tags,
            status,
            visibility,
            credential_expiration,
            description,
            type_,
            schema,
            schema_properties_attributes,
            holder_authorization,
        } => {
            let ghost given_schema = opt_schema_view(schema);
            let ghost given_attrs = schema_properties_attributes;
            match status {
                Status::Archived | Status::Deleted => {
                    return Err(TemplateError::InvalidStatusOnCreate);
                },
                _ => {},
            }
            let title = trim_string(title.as_str());
            if title.unicode_len() == 0 {
                return Err(TemplateError::MissingTitle);
            }
            let type_ = match normalize_and_validate_type(type_, data_model) {
                Ok(t) => t,
                Err(e) => return Err(e),
            };
            let tags = normalize_tags(tags);
            let credential_expiration = match credential_expiration {
                Some(e) => e,
                None => Expiration::default(),
            };
            match validate_expiration(&credential_expiration) {
                Err(e) => return Err(e),
                Ok(()) => {},
            }
            if data_model == DataModel::W3CVcDataModelV1_1 {
                match &schema_properties_attributes {
                    Some(a) => if a.len() > 0 {
                        return Err(TemplateError::SchemaPropertiesAttributesNotAllowed);
                    },
                    None => {},
                }
            }
            let is_ob = data_model == DataModel::OpenBadges3_0;
            let schema = if is_ob {
                let base = match schema {
                    Some(s) => s,
                    None => object_type_json(),
                };
                let base = add_member_if_absent(base, "type", Json::Str(String::from_str("object")));
                let mut s = add_member_if_absent(base, "properties", Json::Object(Vec::new()));
                proof {
                    assert(view_members(Seq::<(String, Json)>::empty()) == Seq::<(Seq<char>, JsonView)>::empty());
                    assert(s@ == ob_base_schema(given_schema));
                }
                match validate_open_badges_required_properties(&s, ob) {
                    Err(e) => return Err(e),
                    Ok(()) => {},
                }
                ensure_schema_required_keys(&mut s, ob);
                Some(s)
            } else {
                schema
            };
            assert(opt_schema_view(schema) == creation_schema(data_model, given_schema, ob@));
            match &schema {
                Some(s) => {
                    match validate_json_schema(s) {
                        Err(e) => return Err(e),
                        Ok(()) => {},
                    }
                    match validate_schema_no_array_types(s) {
                        Err(e) => return Err(e),
                        Ok(()) => {},
                    }
                    if is_ob {
                        match validate_open_badges_schema_properties(s, ob) {
                            Err(e) => return Err(e),
                            Ok(()) => {},
                        }
                    }
                },
                None => {},
            }
            match &schema_properties_attributes {
                Some(a) => if a.len() > 0 {
                    match validate_schema_properties_attributes(&schema, a) {
                        Err(e) => return Err(e),
                        Ok(()) => {},
                    }
                },
                None => {},
            }
            let schema_properties_attributes = if is_ob {
                match &schema {
                    Some(s) => Some(populate_ob_attributes(schema_properties_attributes, s, ob)),
                    None => schema_properties_attributes,
                }
            } else {
                match schema_properties_attributes {
                    Some(a) => if a.len() > 0 {
                        Some(a)
                    } else {
                        None
                    },
                    None => None,
                }
            };
            Ok(single(TemplateEvent::TemplateCreated {
                template_id,
                source_template_id,
                title,
                display,
                data_model,
                holder_type,
                modified_at,
                tags,
                status,
                visibility,
                credential_expiration,
                description,
                type_,
                schema,
                schema_properties_attributes,
                holder_authorization,
            }))
        },
        _ => {
            proof { assert(false); }
            Err(TemplateError::TemplateIdMissing)
        },
    }
}


/// The checks a new schema passes.
pub open spec fn schema_update_check(dm: DataModel, s: JsonView, ob: JsonView) -> Result<(), TemplateErrorView> {
    then_check(
        schema_check(s),
        then_check(
            array_check(s),
            if dm == DataModel::OpenBadges3_0 {
                then_check(schema_properties_check(s, ob), required_properties_check(s, ob))
            } else {
                Ok(())
            },
        ),
    )
}

/// The schema that is stored: for OpenBadges templates with its required keys listed.
pub open spec fn updated_schema(dm: DataModel, s: JsonView, ob: JsonView) -> JsonView {
    if dm == DataModel::OpenBadges3_0 {
        with_required_keys(s, ob)
    } else {
        s
    }
}

/// The keys of the non-removable entries that are not among `leaves`, in entry order.
pub open spec fn non_removable_missing(
    es: Seq<(Seq<char>, PropertyAttribute)>,
    leaves: Seq<Seq<char>>,
) -> Seq<Seq<char>>
    decreases es.len(),
{
    if es.len() == 0 {
        Seq::empty()
    } else if es.last().1.non_removable && !leaves.contains(es.last().0) {
        non_removable_missing(es.drop_last(), leaves).push(es.last().0)
    } else {
        non_removable_missing(es.drop_last(), leaves)
    }
}

pub open spec fn removal_message(missing: Seq<Seq<char>>) -> Seq<char> {
    "The following non-removable properties cannot be removed from the schema: ["@ + seq_join(missing, ", "@)
        + "]"@
}

/// The entries of optional attributes; none when there are none.
pub open spec fn entries_or_empty(a: Option<AttributeMap>) -> Seq<(Seq<char>, PropertyAttribute)> {
    match a {
        Some(m) => m.entries_seq(),
        None => Seq::empty(),
    }
}

/// The outcome of replacing the schema of `t` once the new schema passed its checks.
pub open spec fn schema_update_outcome(
    t: Template,
    id: String,
    schema: Json,
    ob: JsonView,
    m: Seq<char>,
    r: Result<Vec<TemplateEvent>, TemplateError>,
) -> bool {
    let s2 = updated_schema(t.data_model, schema@, ob);
    let leaves = leaf_paths(s2, Seq::empty());
    let es = entries_or_empty(t.schema_properties_attributes);
    let missing = non_removable_missing(es, leaves);
    if missing.len() > 0 {
        refuses(r, TemplateErrorView::NonRemovablePropertyViolation(removal_message(missing)))
    } else {
        &&& r is Ok
        &&& events_of(r).len() >= 1
        &&& events_of(r)[0] matches TemplateEvent::SchemaUpdated { template_id: i, schema: x, modified_at: y }
            && i@ == id@ && x@ == s2 && y@ == m
        &&& if t.schema_properties_attributes is Some && entries_within(es, leaves).len() != es.len() {
            &&& events_of(r).len() == 2
            &&& events_of(r)[1] matches TemplateEvent::SchemaPropertiesAttributesUpdated {
                template_id: i,
                schema_properties_attributes: p,
                modified_at: y,
            } && i == id && p.entries_seq() == entries_within(es, leaves) && y@ == m
        } else {
            events_of(r).len() == 1
        }
    }
}

/// What replacing the schema of `t` decides, at time `m`.
pub open spec fn schema_update_decided(
    t: Template,
    id: String,
    schema: Json,
    ob: JsonView,
    m: Seq<char>,
    r: Result<Vec<TemplateEvent>, TemplateError>,
) -> bool {
    checked_then(
        editable_check(t.status),
        r,
        checked_then(schema_update_check(t.data_model, schema@, ob), r, schema_update_outcome(t, id, schema, ob, m, r)),
    )
}

/// Whether `out` are the entries `given` with the `non_removable` flags they keep.
pub open spec fn flags_kept(
    out: Seq<(Seq<char>, PropertyAttribute)>,
    given: Seq<(Seq<char>, PropertyAttribute)>,
    existing: Option<Map<Seq<char>, PropertyAttribute>>,
) -> bool {
    &&& out.len() == given.len()
    &&& forall|i: int| 0 <= i < out.len() ==> {
        &&& (#[trigger] out[i]).0 == given[i].0
        &&& out[i].1.selectively_disclosable == given[i].1.selectively_disclosable
        &&& out[i].1.non_removable == kept_non_removable(existing, given[i].0)
    }
}

/// What replacing the schema property attributes of `t` decides, at time `m`.
pub open spec fn attributes_update_decided(
    t: Template,
    id: String,
    attrs: AttributeMap,
    m: Seq<char>,
    r: Result<Vec<TemplateEvent>, TemplateError>,
) -> bool {
    checked_then(
        editable_check(t.status),
        r,
        if t.data_model == DataModel::W3CVcDataModelV1_1 {
            refuses(r, TemplateErrorView::SchemaPropertiesAttributesNotAllowed)
        } else {
            match first_trim_collision(attrs.entries_seq()) {
                Some(k) => refuses(r, TemplateErrorView::DuplicateSchemaPropertiesAttributeKey(k)),
                None => {
                    let tr = trimmed_entries(attrs.entries_seq());
                    checked_then(
                        attributes_check(opt_schema_view(t.schema), entry_keys(tr)),
                        r,
                        sole_event(r) matches Some(TemplateEvent::SchemaPropertiesAttributesUpdated {
                            template_id: i,
                            schema_properties_attributes: p,
                            modified_at: y,
                        }) && i == id && y@ == m && flags_kept(
                            p.entries_seq(),
                            tr,
                            opt_attributes_map(t.schema_properties_attributes),
                        ),
                    )
                },
            }
        },
    )
}

/// The tags an update stores: the normalized ones, or none.
pub open spec fn tags_or_empty(t: Option<Seq<Seq<char>>>) -> Seq<Seq<char>> {
    match t {
        Some(x) => x,
        None => Seq::empty(),
    }
}

/// What template `t` decides on command `c`, given the OpenBadges schema `ob` and the
/// time `m`: the refusal, or the events to record.
pub open spec fn decided(
    t: Template,
    c: TemplateCommand,
    ob: JsonView,
    m: Seq<char>,
    r: Result<Vec<TemplateEvent>, TemplateError>,
) -> bool {
    match c {
        TemplateCommand::CreateNewTemplate { .. } => creation_decided(c, ob, m, r),
        TemplateCommand::UpdateTitle { template_id, title } => checked_then(
            editable_check(t.status),
            r,
            if trimmed(title@).len() == 0 {
                refuses(r, TemplateErrorView::MissingTitle)
            } else {
                sole_event(r) matches Some(TemplateEvent::TitleUpdated { template_id: i, title: x, modified_at: y })
                    && i == template_id && x@ == trimmed(title@) && y@ == m
            },
        ),
        TemplateCommand::UpdateDisplay { template_id, display } => checked_then(
            editable_check(t.status),
            r,
            sole_event(r) matches Some(TemplateEvent::DisplayUpdated { template_id: i, display: x, modified_at: y })
                && i == template_id && x == display && y@ == m,
        ),
        TemplateCommand::UpdateTags { template_id, tags } => checked_then(
            editable_check(t.status),
            r,
            sole_event(r) matches Some(TemplateEvent::TagsUpdated { template_id: i, tags: x, modified_at: y })
                && i == template_id && x.deep_view() == tags_or_empty(normalized_tags(Some(tags.deep_view())))
                && y@ == m,
        ),
        TemplateCommand::UpdateStatus { template_id, status } => checked_then(
            transition_check(t.status, status),
            r,
            sole_event(r) matches Some(TemplateEvent::StatusUpdated { template_id: i, status: x, modified_at: y })
                && i == template_id && x == status && y@ == m,
        ),
        TemplateCommand::UpdateVisibility { template_id, visibility } => checked_then(
            editable_check(t.status),
            r,
            if t.status == Status::Draft && visibility == Visibility::Public {
                refuses(r, TemplateErrorView::DraftTemplateCannotBePublic)
            } else {
                sole_event(r) matches Some(TemplateEvent::VisibilityUpdated { template_id: i, visibility: x, modified_at: y })
                    && i == template_id && x == visibility && y@ == m
            },
        ),
        TemplateCommand::UpdateDescription { template_id, description } => checked_then(
            editable_check(t.status),
            r,
            sole_event(r) matches Some(TemplateEvent::DescriptionUpdated { template_id: i, description: x, modified_at: y })
                && i == template_id && x@ == trimmed(description@) && y@ == m,
        ),
        TemplateCommand::UpdateType { template_id, type_ } => checked_then(
            editable_check(t.status),
            r,
            match normalized_type(type_.deep_view(), t.data_model) {
                Err(e) => refuses(r, e),
                Ok(ts) => sole_event(r) matches Some(TemplateEvent::TypeUpdated { template_id: i, type_: x, modified_at: y })
                    && i == template_id && x.deep_view() == ts && y@ == m,
            },
        ),
        TemplateCommand::UpdateSchema { template_id, schema } => schema_update_decided(t, template_id, schema, ob, m, r),
        TemplateCommand::UpdateSchemaPropertiesAttributes { template_id, schema_properties_attributes } =>
            attributes_update_decided(t, template_id, schema_properties_attributes, m, r),
        TemplateCommand::UpdateCredentialExpiration { template_id, credential_expiration } => checked_then(
            editable_check(t.status),
            r,
            checked_then(
                expiration_check(credential_expiration),
                r,
                sole_event(r) matches Some(TemplateEvent::CredentialExpirationUpdated {
                    template_id: i,
                    credential_expiration: x,
                    modified_at: y,
                }) && i == template_id && x == credential_expiration && y@ == m,
            ),
        ),
        TemplateCommand::UpdateHolderAuthorization { template_id, holder_authorization } => checked_then(
            editable_check(t.status),
            r,
            sole_event(r) matches Some(TemplateEvent::HolderAuthorizationUpdated {
                template_id: i,
                holder_authorization: x,
                modified_at: y,
            }) && i == template_id && x == holder_authorization && y@ == m,
        ),
        TemplateCommand::DeleteTemplate { template_id } => checked_then(
            deletion_check(t.status),
            r,
            sole_event(r) matches Some(TemplateEvent::TemplateDeleted { template_id: i }) && i == template_id,
        ),
    }
}

fn non_removable_keys_missing(existing: &AttributeMap, leaves: &Vec<String>) -> (r: Vec<String>)
    ensures
        r.deep_view() == non_removable_missing(existing.entries_seq(), leaves.deep_view()),
{
    let ghost es = existing.entries_seq();
    let mut out: Vec<String> = Vec::new();
    let mut i: usize = 0;
    while i < existing.len()
        invariant
            i <= es.len(),
            es == existing.entries_seq(),
            out.deep_view() == non_removable_missing(es.take(i as int), leaves.deep_view()),
        decreases es.len() - i,
    {
        assert(es.take(i + 1).drop_last() == es.take(i as int));
        let key = existing.key_at(i);
        if existing.attr_at(i).non_removable && !contains_string(leaves, key) {
            out.push(key.clone());
        }
        i = i + 1;
    }
    assert(es.take(es.len() as int) == es);
    out
}

fn update_schema(t: &Template, template_id: String, schema: Json, ob: &Json, modified_at: String) -> (r: Result<Vec<TemplateEvent>, TemplateError>)
    ensures
        schema_update_decided(*t, template_id, schema, ob@, modified_at@, r),
{
    match ensure_template_editable(&t.status) {
        Err(e) => return Err(e),
        Ok(()) => {},
    }
    match validate_json_schema(&schema) {
        Err(e) => return Err(e),
        Ok(()) => {},
    }
    match validate_schema_no_array_types(&schema) {
        Err(e) => return Err(e),
        Ok(()) => {},
    }
    let is_ob = t.data_model == DataModel::OpenBadges3_0;
    if is_ob {
        match validate_open_badges_schema_properties(&schema, ob) {
            Err(e) => return Err(e),
            Ok(()) => {},
        }
        match validate_open_badges_required_properties(&schema, ob) {
            Err(e) => return Err(e),
            Ok(()) => {},
        }
    }
    let ghost given = schema;
    let mut schema = schema;
    if is_ob {
        ensure_schema_required_keys(&mut schema, ob);
    }
    assert(schema@ == updated_schema(t.data_model, given@, ob@));
    let leaves = collect_leaf_paths(&schema);
    match &t.schema_properties_attributes {
        Some(existing) => {
            let missing = non_removable_keys_missing(existing, &leaves);
            if missing.len() > 0 {
                return Err(TemplateError::NonRemovablePropertyViolation(
                    String::from_str("The following non-removable properties cannot be removed from the schema: [").concat(
                        join(&missing, ", ").as_str(),
                    ).concat("]"),
                ));
            }
        },
        None => {},
    }
    let mut events: Vec<TemplateEvent> = Vec::new();
    events.push(TemplateEvent::SchemaUpdated {
        template_id: template_id.clone(),
        schema,
        modified_at: modified_at.clone(),
    });
    match &t.schema_properties_attributes {
        Some(existing) => {
            let pruned = existing.restricted_to(&leaves);
            if pruned.len() != existing.len() {
                events.push(TemplateEvent::SchemaPropertiesAttributesUpdated {
                    template_id,
                    schema_properties_attributes: pruned,
                    modified_at,
                });
            }
        },
        None => {},
    }
    Ok(events)
}

fn update_attributes(t: &Template, template_id: String, attrs: AttributeMap, modified_at: String) -> (r: Result<Vec<TemplateEvent>, TemplateError>)
    ensures
        attributes_update_decided(*t, template_id, attrs, modified_at@, r),
{
    match ensure_template_editable(&t.status) {
        Err(e) => return Err(e),
        Ok(()) => {},
    }
    if t.data_model == DataModel::W3CVcDataModelV1_1 {
        return Err(TemplateError::SchemaPropertiesAttributesNotAllowed);
    }
    let attrs = match trim_and_deduplicate_attribute_keys(attrs) {
        Ok(a) => a,
        Err(e) => return Err(e),
    };
    match validate_schema_properties_attributes(&t.schema, &attrs) {
        Err(e) => return Err(e),
        Ok(()) => {},
    }
    let attrs = enforce_non_removable_flag(attrs, &t.schema_properties_attributes);
    Ok(single(TemplateEvent::SchemaPropertiesAttributesUpdated {
        template_id,
        schema_properties_attributes: attrs,
        modified_at,
    }))
}


impl Template {
    /// Decides a command against this template at time `modified_at`, given the OpenBadges
    /// 3.0 achievement schema `ob`: the events to record, or why the command is refused.
    pub fn decide(&self, command: TemplateCommand, ob: &Json, modified_at: String) -> (r: Result<Vec<TemplateEvent>, TemplateError>)
        ensures
            decided(*self, command, ob@, modified_at@, r),
    {
        match command {
            TemplateCommand::CreateNewTemplate { .. } => create_template(command, ob, modified_at),
            TemplateCommand::UpdateTitle { template_id, title } => {
                match ensure_template_editable(&self.status) {
                    Err(e) => return Err(e),
                    Ok(()) => {},
                }
                let title = trim_string(title.as_str());
                if title.unicode_len() == 0 {
                    return Err(TemplateError::MissingTitle);
                }
                Ok(single(TemplateEvent::TitleUpdated { template_id, title, modified_at }))
            },
            TemplateCommand::UpdateDisplay { template_id, display } => {
                match ensure_template_editable(&self.status) {
                    Err(e) => return Err(e),
                    Ok(()) => {},
                }
                Ok(single(TemplateEvent::DisplayUpdated { template_id, display, modified_at }))
            },
            TemplateCommand::UpdateTags { template_id, tags } => {
                match ensure_template_editable(&self.status) {
                    Err(e) => return Err(e),
                    Ok(()) => {},
                }
                let tags = match normalize_tags(Some(tags)) {
                    Some(t) => t,
                    None => {
                        let v: Vec<String> = Vec::new();
                        assert(v.deep_view() =~= Seq::<Seq<char>>::empty());
                        v
                    },
                };
                Ok(single(TemplateEvent::TagsUpdated { template_id, tags, modified_at }))
            },
            TemplateCommand::UpdateStatus { template_id, status } => {
                match ensure_status_transition_allowed(&self.status, &status) {
                    Err(e) => return Err(e),
                    Ok(()) => {},
                }
                Ok(single(TemplateEvent::StatusUpdated { template_id, status, modified_at }))
            },
            TemplateCommand::UpdateVisibility { template_id, visibility } => {
                match ensure_template_editable(&self.status) {
                    Err(e) => return Err(e),
                    Ok(()) => {},
                }
                if self.status == Status::Draft && visibility == Visibility::Public {
                    return Err(TemplateError::DraftTemplateCannotBePublic);
                }
                Ok(single(TemplateEvent::VisibilityUpdated { template_id, visibility, modified_at }))
            },
            TemplateCommand::UpdateDescription { template_id, description } => {
                match ensure_template_editable(&self.status) {
                    Err(e) => return Err(e),
                    Ok(()) => {},
                }
                let description = trim_string(description.as_str());
                Ok(single(TemplateEvent::DescriptionUpdated { template_id, description, modified_at }))
            },
            TemplateCommand::UpdateType { template_id, type_ } => {
                match ensure_template_editable(&self.status) {
                    Err(e) => return Err(e),
                    Ok(()) => {},
                }
                let type_ = match normalize_and_validate_type(type_, self.data_model) {
                    Ok(t) => t,
                    Err(e) => return Err(e),
                };
                Ok(single(TemplateEvent::TypeUpdated { template_id, type_, modified_at }))
            },
            TemplateCommand::UpdateSchema { template_id, schema } => update_schema(self, template_id, schema, ob, modified_at),
            TemplateCommand::UpdateSchemaPropertiesAttributes { template_id, schema_properties_attributes } =>
                update_attributes(self, template_id, schema_properties_attributes, modified_at),
            TemplateCommand::UpdateCredentialExpiration { template_id, credential_expiration } => {
                match ensure_template_editable(&self.status) {
                    Err(e) => return Err(e),
                    Ok(()) => {},
                }
                match validate_expiration(&credential_expiration) {
                    Err(e) => return Err(e),
                    Ok(()) => {},
                }
                Ok(single(TemplateEvent::CredentialExpirationUpdated { template_id, credential_expiration, modified_at }))
            },
            TemplateCommand::UpdateHolderAuthorization { template_id, holder_authorization } => {
                match ensure_template_editable(&self.status) {
                    Err(e) => return Err(e),
                    Ok(()) => {},
                }
                Ok(single(TemplateEvent::HolderAuthorizationUpdated { template_id, holder_authorization, modified_at }))
            },
            TemplateCommand::DeleteTemplate { template_id } => {
                match ensure_template_can_be_deleted(&self.status) {
                    Err(e) => return Err(e),
                    Ok(()) => {},
                }
                Ok(single(TemplateEvent::TemplateDeleted { template_id }))
            },
        }
    }

    /// Handles a command now: decides it at the current time, as [`Template::decide`] does.
    pub fn handle(&self, command: TemplateCommand, ob: &Json) -> (r: Result<Vec<TemplateEvent>, TemplateError>)
        ensures
            exists|m: Seq<char>| decided(*self, command, ob@, m, r),
    {
        let modified_at = now_rfc3339();
        let r = self.decide(command, ob, modified_at);
        assert(decided(*self, command, ob@, modified_at@, r));
        r
    }
}

} // verus!
