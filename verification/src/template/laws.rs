use vstd::prelude::*;
use crate::json::JsonView;
use crate::template::views::viewed;
use crate::template::aggregate::{
    applied,
    decided, entries_or_empty, events_of, non_removable_missing, refuses, sole_event,
};
use crate::template::command::TemplateCommand;
use crate::template::error::{TemplateError, TemplateErrorView};
use crate::template::event::TemplateEvent;
use crate::template::normalize::{dedup, drop_empty, normalized_tags, normalized_type, trim_all, vc_type, without};
use crate::text::{chars_le, lemma_text_order_total, lemma_trimmed_idempotent, text_order, trimmed};
use crate::template::open_badges::{
    children_leaves, combined_required, defs_or_empty, full_leaf_path, is_intermediate, map_leaves, ob_path_to_def, required_leaf_paths,
};
use crate::template::schema::{kept_non_removable, leaf_paths, opt_attributes_map};
use crate::template::types::{DataModel, PropertyAttribute, Status, Template, Visibility};

verus! {

/// A deleted template is terminal: it refuses every command but a creation, as deleted.
pub proof fn lemma_deleted_template_is_terminal(
    t: Template,
    c: TemplateCommand,
    ob: JsonView,
    m: Seq<char>,
    r: Result<Vec<TemplateEvent>, TemplateError>,
)
    requires
        t.status == Status::Deleted,
        !(c is CreateNewTemplate),
        decided(t, c, ob, m, r),
    ensures
        refuses(r, TemplateErrorView::DeletedTemplateTerminal),
{
}

/// An archived template is immutable: it refuses every command but a creation, a status
/// change or a deletion, as archived.
pub proof fn lemma_archived_template_is_immutable(
    t: Template,
    c: TemplateCommand,
    ob: JsonView,
    m: Seq<char>,
    r: Result<Vec<TemplateEvent>, TemplateError>,
)
    requires
        t.status == Status::Archived,
        !(c is CreateNewTemplate),
        !(c is UpdateStatus),
        !(c is DeleteTemplate),
        decided(t, c, ob, m, r),
    ensures
        refuses(r, TemplateErrorView::ArchivedTemplateImmutable),
{
}

/// A draft template is never made public.
pub proof fn lemma_draft_template_stays_private(
    t: Template,
    c: TemplateCommand,
    ob: JsonView,
    m: Seq<char>,
    r: Result<Vec<TemplateEvent>, TemplateError>,
)
    requires
        t.status == Status::Draft,
        c matches TemplateCommand::UpdateVisibility { visibility, .. } && visibility == Visibility::Public,
        decided(t, c, ob, m, r),
    ensures
        refuses(r, TemplateErrorView::DraftTemplateCannotBePublic),
{
}

/// A published template is archived before it can be deleted, by either command.
pub proof fn lemma_published_template_is_archived_before_deletion(
    t: Template,
    c: TemplateCommand,
    ob: JsonView,
    m: Seq<char>,
    r: Result<Vec<TemplateEvent>, TemplateError>,
)
    requires
        t.status == Status::Published,
        (c is DeleteTemplate) || (c matches TemplateCommand::UpdateStatus { status, .. } && status == Status::Deleted),
        decided(t, c, ob, m, r),
    ensures
        refuses(r, TemplateErrorView::ArchiveBeforeDeleteRequired),
{
}

/// No command moves a template out of the `Deleted` status, nor into `Archived` or
/// `Deleted` on creation.
pub proof fn lemma_creation_status(
    t: Template,
    c: TemplateCommand,
    ob: JsonView,
    m: Seq<char>,
    r: Result<Vec<TemplateEvent>, TemplateError>,
)
    requires
        c is CreateNewTemplate,
        decided(t, c, ob, m, r),
        r is Ok,
    ensures
        sole_event(r) matches Some(TemplateEvent::TemplateCreated { status, .. }) && (status == Status::Draft
            || status == Status::Published),
{
}

proof fn lemma_no_missing(es: Seq<(Seq<char>, PropertyAttribute)>, leaves: Seq<Seq<char>>)
    requires
        non_removable_missing(es, leaves).len() == 0,
    ensures
        forall|i: int| 0 <= i < es.len() && (#[trigger] es[i]).1.non_removable ==> leaves.contains(es[i].0),
    decreases es.len(),
{
    if es.len() > 0 {
        lemma_no_missing(es.drop_last(), leaves);
        assert forall|i: int| 0 <= i < es.len() && (#[trigger] es[i]).1.non_removable implies leaves.contains(es[i].0) by {
            if i < es.len() - 1 {
                assert(es[i] == es.drop_last()[i]);
            }
        }
    }
}

/// A schema that replaces another keeps every non-removable property as a leaf field.
pub proof fn lemma_schema_update_keeps_non_removable(
    t: Template,
    c: TemplateCommand,
    ob: JsonView,
    m: Seq<char>,
    r: Result<Vec<TemplateEvent>, TemplateError>,
)
    requires
        c is UpdateSchema,
        decided(t, c, ob, m, r),
        r is Ok,
    ensures
        events_of(r).len() >= 1,
        events_of(r)[0] matches TemplateEvent::SchemaUpdated { schema, .. } && forall|i: int|
            0 <= i < entries_or_empty(t.schema_properties_attributes).len() && (#[trigger] entries_or_empty(
                t.schema_properties_attributes,
            )[i]).1.non_removable ==> leaf_paths(schema@, Seq::empty()).contains(
                entries_or_empty(t.schema_properties_attributes)[i].0,
            ),
{
    let es = entries_or_empty(t.schema_properties_attributes);
    match events_of(r)[0] {
        TemplateEvent::SchemaUpdated { schema, .. } => {
            lemma_no_missing(es, leaf_paths(schema@, Seq::empty()));
        },
        _ => {},
    }
}

/// The `non_removable` flags are the system's: an update of the schema property attributes
/// gives each entry the flag of the entry it replaces under the same key, else `false`.
pub proof fn lemma_attributes_update_keeps_flags(
    t: Template,
    c: TemplateCommand,
    ob: JsonView,
    m: Seq<char>,
    r: Result<Vec<TemplateEvent>, TemplateError>,
)
    requires
        c is UpdateSchemaPropertiesAttributes,
        decided(t, c, ob, m, r),
        r is Ok,
    ensures
        sole_event(r) matches Some(TemplateEvent::SchemaPropertiesAttributesUpdated { schema_properties_attributes: p, .. })
            && forall|i: int| 0 <= i < p.entries_seq().len() ==> (#[trigger] p.entries_seq()[i]).1.non_removable
                == kept_non_removable(opt_attributes_map(t.schema_properties_attributes), p.entries_seq()[i].0),
{
}

proof fn lemma_dedup_distinct(s: Seq<Seq<char>>)
    ensures
        forall|i: int, j: int| 0 <= i < j < dedup(s).len() ==> dedup(s)[i] != dedup(s)[j],
        forall|i: int| 0 <= i < dedup(s).len() ==> s.contains(#[trigger] dedup(s)[i]),
    decreases s.len(),
{
    if s.len() > 0 {
        let p = s.drop_last();
        lemma_dedup_distinct(p);
        assert forall|i: int| 0 <= i < dedup(s).len() implies s.contains(#[trigger] dedup(s)[i]) by {
            if i < dedup(p).len() {
                assert(dedup(s)[i] == dedup(p)[i]);
                let k = choose|k: int| 0 <= k < p.len() && p[k] == dedup(p)[i];
                assert(s[k] == p[k]);
            } else {
                assert(s[s.len() - 1] == dedup(s)[i]);
            }
        }
        assert forall|i: int, j: int| 0 <= i < j < dedup(s).len() implies dedup(s)[i] != dedup(s)[j] by {
            if j < dedup(p).len() {
                assert(dedup(s)[i] == dedup(p)[i] && dedup(s)[j] == dedup(p)[j]);
            } else {
                assert(dedup(s)[i] == dedup(p)[i]);
            }
        }
    }
}

proof fn lemma_drop_empty_nonempty(s: Seq<Seq<char>>)
    ensures
        forall|i: int| 0 <= i < drop_empty(s).len() ==> (#[trigger] drop_empty(s)[i]).len() > 0,
    decreases s.len(),
{
    if s.len() > 0 {
        lemma_drop_empty_nonempty(s.drop_last());
        let p = drop_empty(s.drop_last());
        assert forall|i: int| 0 <= i < drop_empty(s).len() implies (#[trigger] drop_empty(s)[i]).len() > 0 by {
            if i < p.len() {
                assert(drop_empty(s)[i] == p[i]);
            }
        }
    }
}

proof fn lemma_trim_all_trimmed(s: Seq<Seq<char>>)
    ensures
        trim_all(s).len() == s.len(),
        forall|i: int| 0 <= i < s.len() ==> #[trigger] trim_all(s)[i] == trimmed(s[i]),
    decreases s.len(),
{
    if s.len() > 0 {
        lemma_trim_all_trimmed(s.drop_last());
        assert forall|i: int| 0 <= i < s.len() implies #[trigger] trim_all(s)[i] == trimmed(s[i]) by {
            if i < s.len() - 1 {
                assert(trim_all(s)[i] == trim_all(s.drop_last())[i]);
                assert(s.drop_last()[i] == s[i]);
            }
        }
    }
}

proof fn lemma_drop_empty_subset(s: Seq<Seq<char>>)
    ensures
        forall|i: int| 0 <= i < drop_empty(s).len() ==> s.contains(#[trigger] drop_empty(s)[i]),
    decreases s.len(),
{
    if s.len() > 0 {
        let p = s.drop_last();
        lemma_drop_empty_subset(p);
        assert forall|i: int| 0 <= i < drop_empty(s).len() implies s.contains(#[trigger] drop_empty(s)[i]) by {
            if i < drop_empty(p).len() {
                assert(drop_empty(s)[i] == drop_empty(p)[i]);
                let k = choose|k: int| 0 <= k < p.len() && p[k] == drop_empty(p)[i];
                assert(s[k] == p[k]);
            } else {
                assert(drop_empty(s)[i] == s[s.len() - 1]);
            }
        }
    }
}

/// Normalized tags hold no empty tag, no tag twice, and only trimmed tags.
pub proof fn lemma_normalized_tags_distinct_non_empty(tags: Seq<Seq<char>>)
    ensures
        normalized_tags(Some(tags)) matches Some(n) ==> {
            &&& forall|i: int| 0 <= i < n.len() ==> (#[trigger] n[i]).len() > 0
            &&& forall|i: int, j: int| 0 <= i < j < n.len() ==> n[i] != n[j]
            &&& forall|i: int| 0 <= i < n.len() ==> trimmed(#[trigger] n[i]) == n[i]
        },
{
    let ta = trim_all(tags);
    let e = drop_empty(ta);
    lemma_drop_empty_nonempty(ta);
    lemma_drop_empty_subset(ta);
    lemma_trim_all_trimmed(tags);
    lemma_dedup_distinct(e);
    assert forall|i: int| 0 <= i < dedup(e).len() implies (#[trigger] dedup(e)[i]).len() > 0 && trimmed(dedup(e)[i]) == dedup(e)[i] by {
        let k = choose|k: int| 0 <= k < e.len() && e[k] == dedup(e)[i];
        assert(e[k].len() > 0);
        let j = choose|j: int| 0 <= j < ta.len() && ta[j] == e[k];
        assert(ta[j] == trimmed(tags[j]));
        lemma_trimmed_idempotent(tags[j]);
    }
}

proof fn lemma_trim_all_fixed(s: Seq<Seq<char>>)
    requires
        forall|i: int| 0 <= i < s.len() ==> trimmed(#[trigger] s[i]) == s[i],
    ensures
        trim_all(s) == s,
    decreases s.len(),
{
    if s.len() > 0 {
        let p = s.drop_last();
        assert forall|i: int| 0 <= i < p.len() implies trimmed(#[trigger] p[i]) == p[i] by {
            assert(p[i] == s[i]);
        }
        lemma_trim_all_fixed(p);
        assert(trim_all(s) =~= p.push(trimmed(s.last())));
        assert(p.push(s.last()) =~= s);
    }
}

proof fn lemma_drop_empty_fixed(s: Seq<Seq<char>>)
    requires
        forall|i: int| 0 <= i < s.len() ==> (#[trigger] s[i]).len() > 0,
    ensures
        drop_empty(s) == s,
    decreases s.len(),
{
    if s.len() > 0 {
        let p = s.drop_last();
        assert forall|i: int| 0 <= i < p.len() implies (#[trigger] p[i]).len() > 0 by {
            assert(p[i] == s[i]);
        }
        lemma_drop_empty_fixed(p);
        assert(p.push(s.last()) =~= s);
    }
}

proof fn lemma_dedup_fixed(s: Seq<Seq<char>>)
    requires
        forall|i: int, j: int| 0 <= i < j < s.len() ==> s[i] != s[j],
    ensures
        dedup(s) == s,
    decreases s.len(),
{
    if s.len() > 0 {
        let p = s.drop_last();
        assert forall|i: int, j: int| 0 <= i < j < p.len() implies p[i] != p[j] by {
            assert(p[i] == s[i] && p[j] == s[j]);
        }
        lemma_dedup_fixed(p);
        if dedup(p).contains(s.last()) {
            let k = choose|k: int| 0 <= k < dedup(p).len() && dedup(p)[k] == s.last();
            assert(s[k] == s[s.len() - 1]);
        }
        assert(p.push(s.last()) =~= s);
    }
}

/// Normalizing tags a second time changes nothing.
pub proof fn lemma_normalized_tags_idempotent(tags: Seq<Seq<char>>)
    ensures
        normalized_tags(Some(tags)) matches Some(n) ==> normalized_tags(Some(n)) == Some(n),
{
    lemma_normalized_tags_distinct_non_empty(tags);
    if normalized_tags(Some(tags)) is Some {
        let n = normalized_tags(Some(tags))->0;
        lemma_trim_all_fixed(n);
        lemma_drop_empty_fixed(n);
        lemma_dedup_fixed(n);
    }
}

proof fn lemma_without(s: Seq<Seq<char>>, x: Seq<char>)
    ensures
        forall|i: int| 0 <= i < without(s, x).len() ==> #[trigger] without(s, x)[i] != x,
        forall|i: int| 0 <= i < without(s, x).len() ==> s.contains(#[trigger] without(s, x)[i]),
        (forall|i: int, j: int| 0 <= i < j < s.len() ==> s[i] != s[j]) ==> forall|i: int, j: int|
            0 <= i < j < without(s, x).len() ==> without(s, x)[i] != without(s, x)[j],
    decreases s.len(),
{
    if s.len() > 0 {
        let p = s.drop_last();
        lemma_without(p, x);
        let w = without(s, x);
        let wp = without(p, x);
        assert forall|i: int| 0 <= i < w.len() implies #[trigger] w[i] != x && s.contains(w[i]) by {
            if i < wp.len() {
                assert(w[i] == wp[i]);
                let k = choose|k: int| 0 <= k < p.len() && p[k] == wp[i];
                assert(s[k] == p[k]);
            } else {
                assert(w[i] == s[s.len() - 1]);
            }
        }
        if forall|i: int, j: int| 0 <= i < j < s.len() ==> s[i] != s[j] {
            assert forall|i: int, j: int| 0 <= i < j < p.len() implies p[i] != p[j] by {
                assert(p[i] == s[i] && p[j] == s[j]);
            }
            assert forall|i: int, j: int| 0 <= i < j < w.len() implies w[i] != w[j] by {
                if j < wp.len() {
                    assert(w[i] == wp[i] && w[j] == wp[j]);
                } else {
                    assert(w[i] == wp[i]);
                    let k = choose|k: int| 0 <= k < p.len() && p[k] == wp[i];
                    assert(w[j] == s[s.len() - 1]);
                    assert(s[k] != s[s.len() - 1]);
                }
            }
        }
    }
}

/// The normalized `type` of a template that is not an OpenBadges template starts with
/// `VerifiableCredential` and holds no entry twice.
pub proof fn lemma_standard_type_shape(input: Seq<Seq<char>>, dm: DataModel)
    requires
        dm != DataModel::OpenBadges3_0,
    ensures
        normalized_type(input, dm) matches Ok(ts) && ts.len() >= 1 && ts[0] == vc_type() && forall|i: int, j: int|
            0 <= i < j < ts.len() ==> ts[i] != ts[j],
{
    let f = crate::template::normalize::drop_blank(input);
    if f.len() > 0 {
        lemma_dedup_distinct(f);
        lemma_without(dedup(f), vc_type());
        let ts = seq![vc_type()] + without(dedup(f), vc_type());
        let w = without(dedup(f), vc_type());
        assert forall|i: int, j: int| 0 <= i < j < ts.len() implies ts[i] != ts[j] by {
            if i == 0 {
                assert(ts[j] == w[j - 1]);
            } else {
                assert(ts[i] == w[i - 1] && ts[j] == w[j - 1]);
            }
        }
        assert(normalized_type(input, dm) == Ok::<Seq<Seq<char>>, TemplateErrorView>(ts));
    } else {
        assert(normalized_type(input, dm) == Ok::<Seq<Seq<char>>, TemplateErrorView>(seq![vc_type()]));
    }
}

/// The normalized `type` of an OpenBadges template is `VerifiableCredential` followed by
/// exactly one badge type.
pub proof fn lemma_open_badges_type_shape(input: Seq<Seq<char>>)
    ensures
        normalized_type(input, DataModel::OpenBadges3_0) matches Ok(ts) ==> ts.len() == 2 && ts[0] == vc_type()
            && (ts[1] == "OpenBadgeCredential"@ || ts[1] == "AchievementCredential"@) && ts[0] != ts[1],
{
    reveal_strlit("VerifiableCredential");
    reveal_strlit("OpenBadgeCredential");
    reveal_strlit("AchievementCredential");
    assert(vc_type().len() == 20);
    assert("OpenBadgeCredential"@.len() == 19);
    assert("AchievementCredential"@.len() == 21);
    assert(crate::template::normalize::obc_type() == "OpenBadgeCredential"@);
    assert(crate::template::normalize::ac_type() == "AchievementCredential"@);
}

/// A new OpenBadges template lists an attribute for every leaf field of its schema, and a
/// leaf field is non-removable exactly when it is a required OpenBadges field.
pub proof fn lemma_open_badges_required_fields_non_removable(
    t: Template,
    c: TemplateCommand,
    ob: JsonView,
    m: Seq<char>,
    r: Result<Vec<TemplateEvent>, TemplateError>,
)
    requires
        c matches TemplateCommand::CreateNewTemplate { data_model, .. } && data_model == DataModel::OpenBadges3_0,
        decided(t, c, ob, m, r),
        r is Ok,
    ensures
        sole_event(r) matches Some(TemplateEvent::TemplateCreated {
            schema: Some(s),
            schema_properties_attributes: Some(p),
            ..
        }) && forall|k: Seq<char>| #[trigger] leaf_paths(s@, Seq::empty()).contains(k) ==> {
            &&& p.as_map().contains_key(k)
            &&& p.as_map()[k].non_removable == crate::template::open_badges::required_leaf_paths(ob).contains(k)
        },
{
}

/// Whether a path is a JSON Pointer below the root: it starts with `/`.
pub open spec fn is_pointer(p: Seq<char>) -> bool {
    p.len() > 0 && p[0] == '/'
}

proof fn lemma_children_leaves_are_pointers(
    defs: Seq<(Seq<char>, JsonView)>,
    ptd: Seq<(Seq<char>, Seq<char>)>,
    path: Seq<char>,
    children: Seq<Seq<char>>,
)
    ensures
        forall|i: int| 0 <= i < children_leaves(defs, ptd, path, children).len()
            ==> is_pointer(#[trigger] children_leaves(defs, ptd, path, children)[i]),
    decreases children.len(),
{
    if children.len() > 0 {
        lemma_children_leaves_are_pointers(defs, ptd, path, children.drop_last());
        let fp = full_leaf_path(path, children.last());
        assert(is_pointer(fp)) by {
            if path.len() == 0 {
                assert((seq!['/'] + children.last())[0] == '/');
            } else {
                assert((seq!['/'] + path + seq!['/'] + children.last())[0] == '/');
            }
        }
        let a = children_leaves(defs, ptd, path, children.drop_last());
        let b: Seq<Seq<char>> = if is_intermediate(defs, ptd, path, children.last()) {
            Seq::empty()
        } else {
            seq![fp]
        };
        assert(children_leaves(defs, ptd, path, children) == a + b);
        assert forall|i: int| 0 <= i < (a + b).len() implies is_pointer(#[trigger] (a + b)[i]) by {
            if i < a.len() {
                assert((a + b)[i] == a[i]);
            } else {
                assert((a + b)[i] == b[i - a.len()]);
            }
        }
    }
}

proof fn lemma_map_leaves_are_pointers(
    defs: Seq<(Seq<char>, JsonView)>,
    ptd: Seq<(Seq<char>, Seq<char>)>,
    m: Seq<(Seq<char>, Seq<Seq<char>>)>,
)
    ensures
        forall|i: int| 0 <= i < map_leaves(defs, ptd, m).len() ==> is_pointer(#[trigger] map_leaves(defs, ptd, m)[i]),
    decreases m.len(),
{
    if m.len() > 0 {
        lemma_map_leaves_are_pointers(defs, ptd, m.drop_last());
        lemma_children_leaves_are_pointers(defs, ptd, m.last().0, m.last().1);
        let a = map_leaves(defs, ptd, m.drop_last());
        let b = children_leaves(defs, ptd, m.last().0, m.last().1);
        assert forall|i: int| 0 <= i < (a + b).len() implies is_pointer(#[trigger] (a + b)[i]) by {
            if i < a.len() {
                assert((a + b)[i] == a[i]);
            } else {
                assert((a + b)[i] == b[i - a.len()]);
            }
        }
    }
}

/// The required leaf paths of OpenBadges templates come in ascending order, and each is a
/// JSON Pointer that starts with `/`.
pub proof fn lemma_required_leaf_paths_are_sorted_pointers(ob: JsonView)
    ensures
        forall|i: int, j: int|
            0 <= i < j < required_leaf_paths(ob).len() ==> chars_le(
                #[trigger] required_leaf_paths(ob)[i],
                #[trigger] required_leaf_paths(ob)[j],
            ),
        forall|i: int| 0 <= i < required_leaf_paths(ob).len() ==> is_pointer(#[trigger] required_leaf_paths(ob)[i]),
{
    let leaves = map_leaves(defs_or_empty(ob), ob_path_to_def(ob), combined_required(ob));
    lemma_text_order_total();
    leaves.lemma_sort_by_ensures(text_order());
    lemma_map_leaves_are_pointers(defs_or_empty(ob), ob_path_to_def(ob), combined_required(ob));
    let sorted = leaves.sort_by(text_order());
    assert(sorted == required_leaf_paths(ob));
    assert forall|i: int, j: int| 0 <= i < j < sorted.len() implies chars_le(#[trigger] sorted[i], #[trigger] sorted[j]) by {
        assert(text_order()(sorted[i], sorted[j]));
    }
    assert forall|i: int| 0 <= i < sorted.len() implies is_pointer(#[trigger] sorted[i]) by {
        assert(sorted.contains(sorted[i]));
        assert(leaves.contains(sorted[i]));
        let k = choose|k: int| 0 <= k < leaves.len() && leaves[k] == sorted[i];
        assert(is_pointer(leaves[k]));
    }
}

/// `r` records exactly one event: template `id` moved to `status`.
pub open spec fn records_status(r: Result<Vec<TemplateEvent>, TemplateError>, id: String, status: Status) -> bool {
    &&& r is Ok
    &&& events_of(r).len() == 1
    &&& events_of(r)[0] matches TemplateEvent::StatusUpdated { template_id: i, status: s, .. } && i == id && s == status
}

/// The status lifecycle: a draft may move to any status; a published template may stay
/// published or be archived, and must be archived before it is deleted; an archived template
/// may be republished, stay archived or be deleted, but not go back to draft; a deleted one
/// never changes. An allowed change records exactly one status event with the new status.
pub proof fn lemma_status_update_follows_lifecycle(
    t: Template,
    template_id: String,
    status: Status,
    ob: JsonView,
    m: Seq<char>,
    r: Result<Vec<TemplateEvent>, TemplateError>,
)
    requires
        decided(t, TemplateCommand::UpdateStatus { template_id, status }, ob, m, r),
    ensures
        ({
            ||| t.status == Status::Draft
            ||| t.status == Status::Published && (status == Status::Published || status == Status::Archived)
            ||| t.status == Status::Archived && status != Status::Draft
        }) ==> records_status(r, template_id, status),
        t.status == Status::Published && status == Status::Draft ==> r matches Err(
            TemplateError::InvalidStatusTransition(_),
        ),
        t.status == Status::Archived && status == Status::Draft ==> r matches Err(
            TemplateError::InvalidStatusTransition(_),
        ),
        t.status == Status::Published && status == Status::Deleted ==> r matches Err(
            TemplateError::ArchiveBeforeDeleteRequired,
        ),
        t.status == Status::Deleted ==> r matches Err(TemplateError::DeletedTemplateTerminal),
{
}

/// Each update event sets the field it names, in the aggregate and in its read model: after
/// an event that carries a title, status, visibility, type, expiration, holder
/// authorization, display, schema or schema property attributes, the template holds that
/// value; empty tags or an empty description clear the field; and the template keeps its id.
pub proof fn lemma_update_events_set_their_field(t: Template, e: TemplateEvent)
    ensures
        e matches TemplateEvent::TitleUpdated { title, .. } ==> applied(t, e).title == title && viewed(t, e).title == title,
        e matches TemplateEvent::StatusUpdated { status, .. } ==> applied(t, e).status == status && viewed(t, e).status
            == status,
        e matches TemplateEvent::VisibilityUpdated { visibility, .. } ==> applied(t, e).visibility == visibility
            && viewed(t, e).visibility == visibility,
        e matches TemplateEvent::TypeUpdated { type_, .. } ==> applied(t, e).type_ == type_ && viewed(t, e).type_
            == type_,
        e matches TemplateEvent::CredentialExpirationUpdated { credential_expiration, .. } ==> applied(
            t,
            e,
        ).credential_expiration == credential_expiration && viewed(t, e).credential_expiration
            == credential_expiration,
        e matches TemplateEvent::HolderAuthorizationUpdated { holder_authorization, .. } ==> applied(
            t,
            e,
        ).holder_authorization == holder_authorization && viewed(t, e).holder_authorization == holder_authorization,
        e matches TemplateEvent::DisplayUpdated { display, .. } ==> applied(t, e).display == Some(display) && viewed(
            t,
            e,
        ).display == Some(display),
        e matches TemplateEvent::SchemaUpdated { schema, .. } ==> applied(t, e).schema == Some(schema) && viewed(
            t,
            e,
        ).schema == Some(schema),
        e matches TemplateEvent::SchemaPropertiesAttributesUpdated { schema_properties_attributes, .. } ==> applied(
            t,
            e,
        ).schema_properties_attributes == Some(schema_properties_attributes) && viewed(
            t,
            e,
        ).schema_properties_attributes == Some(schema_properties_attributes),
        e matches TemplateEvent::TagsUpdated { tags, .. } ==> (tags@.len() > 0 ==> applied(t, e).tags == Some(tags)
            && viewed(t, e).tags == Some(tags)) && (tags@.len() == 0 ==> applied(t, e).tags is None && viewed(
            t,
            e,
        ).tags is None),
        e matches TemplateEvent::DescriptionUpdated { description, .. } ==> (description@.len() > 0 ==> applied(
            t,
            e,
        ).description == Some(description) && viewed(t, e).description == Some(description)) && (description@.len()
            == 0 ==> applied(t, e).description is None && viewed(t, e).description is None),
        !(e is TemplateCreated) && !(e is TemplateDeleted) ==> applied(t, e).template_id == t.template_id && viewed(
            t,
            e,
        ).template_id == t.template_id,
{
}

} // verus!
