use vstd::prelude::*;
use crate::catalog::aggregate::{catalog_after, catalog_decided, catalog_sole_event, Catalog};
use crate::catalog::command::CatalogCommand;
use crate::catalog::error::CatalogError;
use crate::catalog::event::CatalogEvent;
use crate::catalog::views::{catalog_view_after, CatalogView};
use crate::text::{entries_in, entries_not_in};

verus! {

/// A deleted catalog refuses every change but a creation and a deletion, as not found.
pub proof fn lemma_deleted_catalog_not_found(
    c: Catalog,
    cmd: CatalogCommand,
    missing: Seq<Seq<char>>,
    r: Result<Vec<CatalogEvent>, CatalogError>,
)
    requires
        c.deleted,
        !(cmd is CreateCatalog),
        !(cmd is DeleteCatalog),
        catalog_decided(c, cmd, missing, r),
    ensures
        r matches Err(e) && e@ is CatalogNotFound,
{
}

pub(crate) proof fn lemma_entries_not_in_absent(s: Seq<Seq<char>>, among: Seq<Seq<char>>)
    ensures
        forall|i: int| 0 <= i < entries_not_in(s, among).len() ==> !among.contains(#[trigger] entries_not_in(s, among)[i]),
    decreases s.len(),
{
    if s.len() > 0 {
        lemma_entries_not_in_absent(s.drop_last(), among);
        let p = entries_not_in(s.drop_last(), among);
        assert forall|i: int| 0 <= i < entries_not_in(s, among).len() implies !among.contains(#[trigger] entries_not_in(s, among)[i]) by {
            if i < p.len() {
                assert(entries_not_in(s, among)[i] == p[i]);
            }
        }
    }
}

proof fn lemma_entries_in_present(s: Seq<Seq<char>>, among: Seq<Seq<char>>)
    ensures
        forall|i: int| 0 <= i < entries_in(s, among).len() ==> among.contains(#[trigger] entries_in(s, among)[i]),
    decreases s.len(),
{
    if s.len() > 0 {
        lemma_entries_in_present(s.drop_last(), among);
        let p = entries_in(s.drop_last(), among);
        assert forall|i: int| 0 <= i < entries_in(s, among).len() implies among.contains(#[trigger] entries_in(s, among)[i]) by {
            if i < p.len() {
                assert(entries_in(s, among)[i] == p[i]);
            }
        }
    }
}

/// Adding template ids records only ids the catalog does not hold yet.
pub proof fn lemma_added_ids_are_new(
    c: Catalog,
    cmd: CatalogCommand,
    missing: Seq<Seq<char>>,
    r: Result<Vec<CatalogEvent>, CatalogError>,
)
    requires
        cmd is AddTemplateIds,
        catalog_decided(c, cmd, missing, r),
    ensures
        catalog_sole_event(r) matches Some(CatalogEvent::TemplateIdsAdded { template_ids, .. }) ==> forall|i: int|
            0 <= i < template_ids@.len() ==> !c.template_ids.deep_view().contains(#[trigger] template_ids.deep_view()[i]),
{
    match cmd {
        CatalogCommand::AddTemplateIds { template_ids, .. } => {
            lemma_entries_not_in_absent(template_ids.deep_view(), c.template_ids.deep_view());
        },
        _ => {},
    }
}

/// Removing template ids records only ids the catalog holds.
pub proof fn lemma_removed_ids_are_held(
    c: Catalog,
    cmd: CatalogCommand,
    missing: Seq<Seq<char>>,
    r: Result<Vec<CatalogEvent>, CatalogError>,
)
    requires
        cmd is RemoveTemplateIds,
        catalog_decided(c, cmd, missing, r),
    ensures
        catalog_sole_event(r) matches Some(CatalogEvent::TemplateIdsRemoved { template_ids, .. }) ==> forall|i: int|
            0 <= i < template_ids@.len() ==> c.template_ids.deep_view().contains(#[trigger] template_ids.deep_view()[i]),
{
    match cmd {
        CatalogCommand::RemoveTemplateIds { template_ids, .. } => {
            lemma_entries_in_present(template_ids.deep_view(), c.template_ids.deep_view());
        },
        _ => {},
    }
}

/// After a removal is applied, the catalog holds none of the removed ids.
pub proof fn lemma_removal_applied(c: Catalog, e: CatalogEvent, a: Catalog)
    requires
        e is TemplateIdsRemoved,
        catalog_after(c, e, a),
    ensures
        e matches CatalogEvent::TemplateIdsRemoved { template_ids, .. } && forall|i: int|
            0 <= i < a.template_ids.deep_view().len() ==> !template_ids.deep_view().contains(#[trigger] a.template_ids.deep_view()[i]),
{
    match e {
        CatalogEvent::TemplateIdsRemoved { template_ids, .. } => {
            lemma_entries_not_in_absent(c.template_ids.deep_view(), template_ids.deep_view());
        },
        _ => {},
    }
}

/// A catalog whose template ids are distinct keeps them distinct when it applies ids that a
/// decision added.
pub proof fn lemma_added_ids_keep_catalog_distinct(c: Catalog, cmd: CatalogCommand, missing: Seq<Seq<char>>, r: Result<Vec<CatalogEvent>, CatalogError>, a: Catalog)
    requires
        cmd matches CatalogCommand::AddTemplateIds { template_ids, .. } && forall|i: int, j: int|
            0 <= i < j < template_ids.deep_view().len() ==> template_ids.deep_view()[i] != template_ids.deep_view()[j],
        forall|i: int, j: int| 0 <= i < j < c.template_ids.deep_view().len() ==> c.template_ids.deep_view()[i] != c.template_ids.deep_view()[j],
        catalog_decided(c, cmd, missing, r),
        catalog_sole_event(r) is Some,
        catalog_after(c, catalog_sole_event(r)->0, a),
    ensures
        forall|i: int, j: int| 0 <= i < j < a.template_ids.deep_view().len() ==> a.template_ids.deep_view()[i] != a.template_ids.deep_view()[j],
{
    match cmd {
        CatalogCommand::AddTemplateIds { template_ids, .. } => {
            let s = template_ids.deep_view();
            let held = c.template_ids.deep_view();
            lemma_entries_not_in_absent(s, held);
            lemma_entries_not_in_distinct(s, held);
            let added = entries_not_in(s, held);
            let all = a.template_ids.deep_view();
            assert(all == held + added);
            assert forall|i: int, j: int| 0 <= i < j < all.len() implies all[i] != all[j] by {
                if j < held.len() {
                } else if i < held.len() {
                    assert(all[j] == added[j - held.len()]);
                    assert(held[i] == all[i]);
                    assert(!held.contains(added[j - held.len()]));
                } else {
                    assert(all[i] == added[i - held.len()] && all[j] == added[j - held.len()]);
                }
            }
        },
        _ => {},
    }
}

proof fn lemma_entries_not_in_distinct(s: Seq<Seq<char>>, among: Seq<Seq<char>>)
    requires
        forall|i: int, j: int| 0 <= i < j < s.len() ==> s[i] != s[j],
    ensures
        forall|i: int, j: int| 0 <= i < j < entries_not_in(s, among).len() ==> entries_not_in(s, among)[i] != entries_not_in(s, among)[j],
        forall|i: int| 0 <= i < entries_not_in(s, among).len() ==> s.contains(#[trigger] entries_not_in(s, among)[i]),
    decreases s.len(),
{
    if s.len() > 0 {
        let p = s.drop_last();
        assert forall|i: int, j: int| 0 <= i < j < p.len() implies p[i] != p[j] by {
            assert(p[i] == s[i] && p[j] == s[j]);
        }
        lemma_entries_not_in_distinct(p, among);
        let w = entries_not_in(s, among);
        let wp = entries_not_in(p, among);
        assert forall|i: int| 0 <= i < w.len() implies s.contains(#[trigger] w[i]) by {
            if i < wp.len() {
                assert(w[i] == wp[i]);
                let k = choose|k: int| 0 <= k < p.len() && p[k] == wp[i];
                assert(s[k] == p[k]);
            } else {
                assert(w[i] == s[s.len() - 1]);
            }
        }
        assert forall|i: int, j: int| 0 <= i < j < w.len() implies w[i] != w[j] by {
            if j < wp.len() {
                assert(w[i] == wp[i] && w[j] == wp[j]);
            } else {
                assert(w[i] == wp[i]);
                let k = choose|k: int| 0 <= k < p.len() && p[k] == wp[i];
                assert(s[k] != s[s.len() - 1]);
            }
        }
    }
}

proof fn lemma_appended_held(s: Seq<Seq<char>>, added: Seq<Seq<char>>)
    ensures
        forall|k: int| 0 <= k < added.len() ==> (s + added).contains(#[trigger] added[k]),
{
    assert forall|k: int| 0 <= k < added.len() implies (s + added).contains(#[trigger] added[k]) by {
        assert((s + added)[s.len() + k] == added[k]);
    }
}

proof fn lemma_removed_absent(s: Seq<Seq<char>>, removed: Seq<Seq<char>>)
    ensures
        forall|k: int| 0 <= k < removed.len() ==> !entries_not_in(s, removed).contains(#[trigger] removed[k]),
{
    lemma_entries_not_in_absent(s, removed);
    assert forall|k: int| 0 <= k < removed.len() implies !entries_not_in(s, removed).contains(#[trigger] removed[k]) by {
        let out = entries_not_in(s, removed);
        if out.contains(removed[k]) {
            let j = choose|j: int| 0 <= j < out.len() && out[j] == removed[k];
            assert(removed.contains(out[j]));
        }
    }
}

/// Each catalog event takes effect, in the aggregate (`c` to `a`) and in the read model (`w`
/// to `v`): a new display or visibility is the one held afterwards, every added template id
/// is held, no removed one is, and a deleted catalog is marked deleted.
pub proof fn lemma_catalog_events_take_effect(c: Catalog, e: CatalogEvent, a: Catalog, w: CatalogView, v: CatalogView)
    requires
        catalog_after(c, e, a),
        catalog_view_after(w, e, v),
    ensures
        e matches CatalogEvent::CatalogAppearanceChanged { display, .. } ==> a.display == display && v.display == display,
        e matches CatalogEvent::CatalogMadePublic { visibility, .. } ==> a.visibility == visibility && v.visibility
            == visibility,
        e matches CatalogEvent::CatalogMadePrivate { visibility, .. } ==> a.visibility == visibility && v.visibility
            == visibility,
        e matches CatalogEvent::TemplateIdsAdded { template_ids, .. } ==> forall|k: int|
            0 <= k < template_ids.deep_view().len() ==> a.template_ids.deep_view().contains(
                #[trigger] template_ids.deep_view()[k],
            ) && v.template_ids.deep_view().contains(template_ids.deep_view()[k]),
        e matches CatalogEvent::TemplateIdsRemoved { template_ids, .. } ==> forall|k: int|
            0 <= k < template_ids.deep_view().len() ==> !a.template_ids.deep_view().contains(
                #[trigger] template_ids.deep_view()[k],
            ) && !v.template_ids.deep_view().contains(template_ids.deep_view()[k]),
        e is CatalogDeleted ==> a.deleted && v.deleted,
{
    match e {
        CatalogEvent::TemplateIdsAdded { template_ids, .. } => {
            lemma_appended_held(c.template_ids.deep_view(), template_ids.deep_view());
            lemma_appended_held(w.template_ids.deep_view(), template_ids.deep_view());
        },
        CatalogEvent::TemplateIdsRemoved { template_ids, .. } => {
            lemma_removed_absent(c.template_ids.deep_view(), template_ids.deep_view());
            lemma_removed_absent(w.template_ids.deep_view(), template_ids.deep_view());
        },
        _ => {},
    }
}

} // verus!
