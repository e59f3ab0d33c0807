use vstd::prelude::*;
use crate::json::str_equal;
use crate::template::aggregate::applied;
use crate::template::event::TemplateEvent;
use crate::template::types::{is_default_template, Status, Template};

verus! {

/// The read model of one template after an event. It follows the aggregate, except that a
/// deletion only marks the template deleted.
pub open spec fn viewed(t: Template, e: TemplateEvent) -> Template {
    match e {
        TemplateEvent::TemplateCreated {
            template_id,
            source_template_id,
            title,
            display,
            data_model,
            holder_type,
            modified_at,
            tags,
            status,
            visibility,
            credential_expiration,
            description,
            type_,
            schema,
            schema_properties_attributes,
            holder_authorization,
        } => Template {
            template_id,
            source_template_id,
            title,
            display,
            data_model,
            holder_type,
            modified_at: Some(modified_at),
            tags,
            status,
            visibility,
            credential_expiration,
            description,
            type_,
            schema,
            schema_properties_attributes,
            holder_authorization,
        },
        TemplateEvent::TitleUpdated { title, modified_at, .. } => Template {
            title,
            modified_at: Some(modified_at),
            ..t
        },
        TemplateEvent::DisplayUpdated { display, modified_at, .. } => Template {
            display: Some(display),
            modified_at: Some(modified_at),
            ..t
        },
        TemplateEvent::TagsUpdated { tags, modified_at, .. } => Template {
            tags: if tags@.len() == 0 { None } else { Some(tags) },
            modified_at: Some(modified_at),
            ..t
        },
        TemplateEvent::StatusUpdated { status, modified_at, .. } => Template {
            status,
            modified_at: Some(modified_at),
            ..t
        },
        TemplateEvent::VisibilityUpdated { visibility, modified_at, .. } => Template {
            visibility,
            modified_at: Some(modified_at),
            ..t
        },
        TemplateEvent::DescriptionUpdated { description, modified_at, .. } => Template {
            description: if description@.len() == 0 { None } else { Some(description) },
            modified_at: Some(modified_at),
            ..t
        },
        TemplateEvent::TypeUpdated { type_, modified_at, .. } => Template {
            type_,
            modified_at: Some(modified_at),
            ..t
        },
        TemplateEvent::SchemaUpdated { schema, modified_at, .. } => Template {
            schema: Some(schema),
            modified_at: Some(modified_at),
            ..t
        },
        TemplateEvent::SchemaPropertiesAttributesUpdated { schema_properties_attributes, modified_at, .. } => Template {
            schema_properties_attributes: Some(schema_properties_attributes),
            modified_at: Some(modified_at),
            ..t
        },
        TemplateEvent::CredentialExpirationUpdated { credential_expiration, modified_at, .. } => Template {
            credential_expiration,
            modified_at: Some(modified_at),
            ..t
        },
        TemplateEvent::HolderAuthorizationUpdated { holder_authorization, modified_at, .. } => Template {
            holder_authorization,
            modified_at: Some(modified_at),
            ..t
        },
        TemplateEvent::TemplateDeleted { .. } => Template { status: Status::Deleted, ..t },
    }
}

impl Template {
    /// Updates the read model of this template with an event.
    pub fn update(&mut self, event: TemplateEvent)
        ensures
            *final(self) == viewed(*old(self), event),
    {
        match event {
            TemplateEvent::TemplateCreated {
                template_id,
                source_template_id,
                title,
                display,
                data_model,
                holder_type,
                modified_at,
                tags,
                status,
                visibility,
                credential_expiration,
                description,
                type_,
                schema,
                schema_properties_attributes,
                holder_authorization,
            } => {
                self.template_id = template_id;
                self.source_template_id = source_template_id;
                self.title = title;
                self.display = display;
                self.data_model = data_model;
                self.holder_type = holder_type;
                self.modified_at = Some(modified_at);
                self.tags = tags;
                self.status = status;
                self.visibility = visibility;
                self.credential_expiration = credential_expiration;
                self.description = description;
                self.type_ = type_;
                self.schema = schema;
                self.schema_properties_attributes = schema_properties_attributes;
                self.holder_authorization = holder_authorization;
            },
            TemplateEvent::TitleUpdated { title, modified_at, .. } => {
                self.title = title;
                self.modified_at = Some(modified_at);
            },
            TemplateEvent::DisplayUpdated { display, modified_at, .. } => {
                self.display = Some(display);
                self.modified_at = Some(modified_at);
            },
            TemplateEvent::TagsUpdated { tags, modified_at, .. } => {
                self.tags = if tags.len() == 0 { None } else { Some(tags) };
                self.modified_at = Some(modified_at);
            },
            TemplateEvent::StatusUpdated { status, modified_at, .. } => {
                self.status = status;
                self.modified_at = Some(modified_at);
            },
            TemplateEvent::VisibilityUpdated { visibility, modified_at, .. } => {
                self.visibility = visibility;
                self.modified_at = Some(modified_at);
            },
            TemplateEvent::DescriptionUpdated { description, modified_at, .. } => {
                self.description = if description.unicode_len() == 0 { None } else { Some(description) };
                self.modified_at = Some(modified_at);
            },
            TemplateEvent::TypeUpdated { type_, modified_at, .. } => {
                self.type_ = type_;
                self.modified_at = Some(modified_at);
            },
            TemplateEvent::SchemaUpdated { schema, modified_at, .. } => {
                self.schema = Some(schema);
                self.modified_at = Some(modified_at);
            },
            TemplateEvent::SchemaPropertiesAttributesUpdated { schema_properties_attributes, modified_at, .. } => {
                self.schema_properties_attributes = Some(schema_properties_attributes);
                self.modified_at = Some(modified_at);
            },
            TemplateEvent::CredentialExpirationUpdated { credential_expiration, modified_at, .. } => {
                self.credential_expiration = credential_expiration;
                self.modified_at = Some(modified_at);
            },
            TemplateEvent::HolderAuthorizationUpdated { holder_authorization, modified_at, .. } => {
                self.holder_authorization = holder_authorization;
                self.modified_at = Some(modified_at);
            },
            TemplateEvent::TemplateDeleted { .. } => {
                self.status = Status::Deleted;
            },
        }
    }
}

/// The read model of one template follows the aggregate on every event but a deletion.
pub proof fn lemma_view_follows_aggregate(t: Template, e: TemplateEvent)
    requires
        !(e is TemplateDeleted),
    ensures
        viewed(t, e) == applied(t, e),
{
}

/// After a deletion, the read model and the aggregate both hold the `Deleted` status.
pub proof fn lemma_view_marks_deleted(t: Template, e: TemplateEvent)
    requires
        e is TemplateDeleted,
    ensures
        viewed(t, e).status == Status::Deleted,
        viewed(t, e).template_id == t.template_id,
{
}

/// The ids of the listed templates, in order.
pub open spec fn listed_ids(ts: Seq<(String, Template)>) -> Seq<Seq<char>> {
    Seq::new(ts.len(), |i: int| ts[i].0@)
}

/// The read model of all templates, keyed by aggregate id in order of first appearance;
/// each id occurs once.
pub struct AllTemplatesView {
    templates: Vec<(String, Template)>,
}

impl AllTemplatesView {
    #[verifier::type_invariant]
    spec fn inv(self) -> bool {
        forall|i: int, j: int| 0 <= i < j < self.templates@.len() ==> self.templates@[i].0@ != self.templates@[j].0@
    }

    /// The listed templates with their ids, in order of first appearance.
    pub closed spec fn entries(self) -> Seq<(String, Template)> {
        self.templates@
    }

    /// An empty read model.
    pub fn new() -> (r: Self)
        ensures
            r.entries().len() == 0,
    {
        AllTemplatesView { templates: Vec::new() }
    }

    /// The number of listed templates.
    pub fn len(&self) -> (r: usize)
        ensures
            r == self.entries().len(),
    {
        self.templates.len()
    }

    /// The id and template at position `i`.
    pub fn entry_at(&self, i: usize) -> (r: (&String, &Template))
        requires
            i < self.entries().len(),
        ensures
            *r.0 == self.entries()[i as int].0,
            *r.1 == self.entries()[i as int].1,
    {
        (&self.templates[i].0, &self.templates[i].1)
    }

    /// The template listed under `id`.
    pub fn get(&self, id: &str) -> (r: Option<&Template>)
        ensures
            match r {
                Some(t) => exists|i: int| 0 <= i < self.entries().len() && self.entries()[i].0@ == id@ && self.entries()[i].1 == *t,
                None => forall|i: int| 0 <= i < self.entries().len() ==> self.entries()[i].0@ != id@,
            },
    {
        let mut i: usize = 0;
        while i < self.templates.len()
            invariant
                i <= self.templates@.len(),
                forall|k: int| 0 <= k < i ==> self.templates@[k].0@ != id@,
            decreases self.templates.len() - i,
        {
            if str_equal(self.templates[i].0.as_str(), id) {
                assert(self.entries()[i as int].0@ == id@);
                return Some(&self.templates[i].1);
            }
            i = i + 1;
        }
        None
    }

    /// Updates the template listed under `aggregate_id` with an event, listing a default
    /// template under that id first when none is.
    pub fn update(&mut self, aggregate_id: String, event: TemplateEvent)
        ensures
            forall|i: int| 0 <= i < old(self).entries().len() && old(self).entries()[i].0@ == aggregate_id@ ==> {
                &&& final(self).entries().len() == old(self).entries().len()
                &&& final(self).entries()[i].0 == old(self).entries()[i].0
                &&& final(self).entries()[i].1 == viewed(old(self).entries()[i].1, event)
                &&& forall|j: int| 0 <= j < old(self).entries().len() && j != i ==> final(self).entries()[j] == old(self).entries()[j]
            },
            (forall|i: int| 0 <= i < old(self).entries().len() ==> old(self).entries()[i].0@ != aggregate_id@) ==> {
                &&& final(self).entries().len() == old(self).entries().len() + 1
                &&& final(self).entries().take(old(self).entries().len() as int) == old(self).entries()
                &&& final(self).entries().last().0 == aggregate_id
                &&& exists|d: Template| is_default_template(d) && final(self).entries().last().1 == viewed(d, event)
            },
    {
        proof { use_type_invariant(&*self); }
        let ghost before = self.templates@;
        let mut i: usize = 0;
        let mut found = false;
        while i < self.templates.len() && !found
            invariant
                i <= self.templates@.len(),
                self.templates@ == before,
                forall|k: int| 0 <= k < i ==> self.templates@[k].0@ != aggregate_id@,
                found ==> i < before.len() && before[i as int].0@ == aggregate_id@,
            decreases self.templates.len() - i + (if found { 0int } else { 1int }),
        {
            if str_equal(self.templates[i].0.as_str(), aggregate_id.as_str()) {
                found = true;
            } else {
                i = i + 1;
            }
        }
        let mut list: Vec<(String, Template)> = Vec::new();
        std::mem::swap(&mut list, &mut self.templates);
        if !found {
            let mut t = Template::default();
            let ghost d = t;
            t.update(event);
            list.push((aggregate_id, t));
            proof {
                assert(is_default_template(d) && list@.last().1 == viewed(d, event));
                assert(list@.take(before.len() as int) == before);
                assert forall|p: int, q: int| 0 <= p < q < list@.len() implies list@[p].0@ != list@[q].0@ by {
                    if q < before.len() {
                        assert(list@[p] == before[p] && list@[q] == before[q]);
                    } else {
                        assert(list@[p] == before[p]);
                    }
                }
            }
        } else {
            let (id, mut t) = list.remove(i);
            t.update(event);
            list.insert(i, (id, t));
            proof {
                assert forall|j: int| 0 <= j < before.len() && before[j].0@ == aggregate_id@ implies j == i by {
                    if j < i {
                        assert(before[j].0@ != before[i as int].0@);
                    } else if j > i {
                        assert(before[i as int].0@ != before[j].0@);
                    }
                }
                assert forall|p: int, q: int| 0 <= p < q < list@.len() implies list@[p].0@ != list@[q].0@ by {
                    assert(list@[p].0 == before[p].0 && list@[q].0 == before[q].0);
                }
            }
        }
        self.templates = list;
    }
}

} // verus!
