use vstd::prelude::*;
use crate::catalog::aggregate::{CatalogDisplay, CatalogVisibility};
use crate::catalog::event::CatalogEvent;
use crate::clock::now_rfc3339;
use crate::json::str_equal;
use crate::text::{entries_not_in, filter_by_membership};
use crate::catalog::aggregate::append_strings;

verus! {

/// The read model of one catalog.
#[derive(Debug, Clone, PartialEq)]
pub struct CatalogView {
    pub catalog_id: String,
    pub display: CatalogDisplay,
    pub template_ids: Vec<String>,
    pub visibility: CatalogVisibility,
    /// When the view last changed, as RFC 3339 text.
    pub modified_at: String,
    pub deleted: bool,
}

/// Whether a catalog view holds the default value, leaving aside when it changed.
pub open spec fn is_blank_catalog_view(v: CatalogView) -> bool {
    &&& v.catalog_id@.len() == 0
    &&& v.display.name@.len() == 0
    &&& v.display.description@.len() == 0
    &&& v.display.icon is None
    &&& v.template_ids@.len() == 0
    &&& v.visibility == CatalogVisibility::Private
    &&& !v.deleted
}

impl CatalogView {
    /// An empty view.
    pub fn new() -> (r: Self)
        ensures
            is_blank_catalog_view(r),
            r.modified_at@ == crate::catalog::aggregate::epoch_text(),
    {
        CatalogView {
            catalog_id: String::new(),
            display: CatalogDisplay { name: String::new(), description: String::new(), icon: None },
            template_ids: Vec::new(),
            visibility: CatalogVisibility::Private,
            modified_at: String::from_str("1970-01-01T00:00:00+00:00"),
            deleted: false,
        }
    }
}

/// Whether view `a` is view `v` after event `e`, leaving aside when it changed.
pub open spec fn catalog_view_after(v: CatalogView, e: CatalogEvent, a: CatalogView) -> bool {
    match e {
        CatalogEvent::CatalogCreated { id, display, visibility } => {
            &&& a.catalog_id == id
            &&& a.display == display
            &&& a.visibility == visibility
            &&& a.template_ids == v.template_ids
            &&& a.deleted == v.deleted
        },
        CatalogEvent::CatalogAppearanceChanged { display, .. } => {
            &&& a.catalog_id == v.catalog_id
            &&& a.display == display
            &&& a.visibility == v.visibility
            &&& a.template_ids == v.template_ids
            &&& a.deleted == v.deleted
        },
        CatalogEvent::CatalogMadePublic { visibility, .. } | CatalogEvent::CatalogMadePrivate { visibility, .. } => {
            &&& a.catalog_id == v.catalog_id
            &&& a.display == v.display
            &&& a.visibility == visibility
            &&& a.template_ids == v.template_ids
            &&& a.deleted == v.deleted
        },
        CatalogEvent::TemplateIdsAdded { template_ids, .. } => {
            &&& a.catalog_id == v.catalog_id
            &&& a.display == v.display
            &&& a.visibility == v.visibility
            &&& a.template_ids.deep_view() == v.template_ids.deep_view() + template_ids.deep_view()
            &&& a.deleted == v.deleted
        },
        CatalogEvent::TemplateIdsRemoved { template_ids, .. } => {
            &&& a.catalog_id == v.catalog_id
            &&& a.display == v.display
            &&& a.visibility == v.visibility
            &&& a.template_ids.deep_view() == entries_not_in(v.template_ids.deep_view(), template_ids.deep_view())
            &&& a.deleted == v.deleted
        },
        CatalogEvent::CatalogDeleted { .. } => {
            &&& a.catalog_id == v.catalog_id
            &&& a.display == v.display
            &&& a.visibility == v.visibility
            &&& a.template_ids == v.template_ids
            &&& a.deleted
        },
    }
}

impl CatalogView {
    /// Updates the view with an event; every event stamps the current time.
    pub fn update(&mut self, event: CatalogEvent)
        ensures
            catalog_view_after(*old(self), event, *final(self)),
    {
        self.modified_at = now_rfc3339();
        match event {
            CatalogEvent::CatalogCreated { id, display, visibility } => {
                self.catalog_id = id;
                self.display = display;
                self.visibility = visibility;
            },
            CatalogEvent::CatalogAppearanceChanged { display, .. } => {
                self.display = display;
            },
            CatalogEvent::CatalogMadePublic { visibility, .. } => {
                self.visibility = visibility;
            },
            CatalogEvent::CatalogMadePrivate { visibility, .. } => {
                self.visibility = visibility;
            },
            CatalogEvent::TemplateIdsAdded { template_ids, .. } => {
                append_strings(&mut self.template_ids, template_ids);
            },
            CatalogEvent::TemplateIdsRemoved { template_ids, .. } => {
                self.template_ids = filter_by_membership(&self.template_ids, &template_ids, false);
            },
            CatalogEvent::CatalogDeleted { .. } => {
                self.deleted = true;
            },
        }
    }
}

/// The read model of all catalogs that are not deleted, keyed by aggregate id in order of
/// first appearance; each id occurs once.
pub struct AllCatalogsView {
    catalogs: Vec<(String, CatalogView)>,
}

impl AllCatalogsView {
    #[verifier::type_invariant]
    spec fn inv(self) -> bool {
        &&& forall|i: int, j: int| 0 <= i < j < self.catalogs@.len() ==> self.catalogs@[i].0@ != self.catalogs@[j].0@
        &&& forall|i: int| 0 <= i < self.catalogs@.len() ==> !(#[trigger] self.catalogs@[i]).1.deleted
    }

    /// The listed catalogs with their ids.
    pub closed spec fn entries(self) -> Seq<(String, CatalogView)> {
        self.catalogs@
    }

    /// An empty read model.
    pub fn new() -> (r: Self)
        ensures
            r.entries().len() == 0,
    {
        AllCatalogsView { catalogs: Vec::new() }
    }

    /// The number of listed catalogs.
    pub fn len(&self) -> (r: usize)
        ensures
            r == self.entries().len(),
    {
        self.catalogs.len()
    }

    /// The catalog listed under `id`.
    pub fn get(&self, id: &str) -> (r: Option<&CatalogView>)
        ensures
            match r {
                Some(v) => !v.deleted && exists|i: int| 0 <= i < self.entries().len() && self.entries()[i].0@ == id@ && self.entries()[i].1 == *v,
                None => forall|i: int| 0 <= i < self.entries().len() ==> self.entries()[i].0@ != id@,
            },
    {
        proof { use_type_invariant(self); }
        let mut i: usize = 0;
        while i < self.catalogs.len()
            invariant
                i <= self.catalogs@.len(),
                forall|k: int| 0 <= k < i ==> self.catalogs@[k].0@ != id@,
                forall|k: int| 0 <= k < self.catalogs@.len() ==> !(#[trigger] self.catalogs@[k]).1.deleted,
            decreases self.catalogs.len() - i,
        {
            if str_equal(self.catalogs[i].0.as_str(), id) {
                assert(self.entries()[i as int].0@ == id@);
                assert(!self.catalogs@[i as int].1.deleted);
                return Some(&self.catalogs[i].1);
            }
            i = i + 1;
        }
        None
    }

    /// Updates the catalog listed under `aggregate_id` with an event, listing a blank view
    /// under that id first when none is; a catalog that the event deletes leaves the list.
    pub fn update(&mut self, aggregate_id: String, event: CatalogEvent)
        ensures
            forall|i: int| 0 <= i < old(self).entries().len() && old(self).entries()[i].0@ == aggregate_id@ ==> {
                if event is CatalogDeleted {
                    final(self).entries() == old(self).entries().remove(i)
                } else {
                    &&& final(self).entries().len() == old(self).entries().len()
                    &&& final(self).entries()[i].0 == old(self).entries()[i].0
                    &&& catalog_view_after(old(self).entries()[i].1, event, final(self).entries()[i].1)
                    &&& forall|j: int| 0 <= j < old(self).entries().len() && j != i ==> final(self).entries()[j] == old(self).entries()[j]
                }
            },
            forall|i: int| 0 <= i < final(self).entries().len() ==> !(#[trigger] final(self).entries()[i]).1.deleted,
            (forall|i: int| 0 <= i < old(self).entries().len() ==> old(self).entries()[i].0@ != aggregate_id@) ==> {
                if event is CatalogDeleted {
                    final(self).entries() == old(self).entries()
                } else {
                    &&& final(self).entries().len() == old(self).entries().len() + 1
                    &&& final(self).entries().take(old(self).entries().len() as int) == old(self).entries()
                    &&& final(self).entries().last().0 == aggregate_id
                    &&& exists|b: CatalogView| is_blank_catalog_view(b) && catalog_view_after(b, event, final(self).entries().last().1)
                }
            },
    {
        proof { use_type_invariant(&*self); }
        let ghost before = self.catalogs@;
        let mut i: usize = 0;
        let mut found = false;
        while i < self.catalogs.len() && !found
            invariant
                i <= self.catalogs@.len(),
                self.catalogs@ == before,
                forall|k: int| 0 <= k < i ==> self.catalogs@[k].0@ != aggregate_id@,
                found ==> i < before.len() && before[i as int].0@ == aggregate_id@,
            decreases self.catalogs.len() - i + (if found { 0int } else { 1int }),
        {
            if str_equal(self.catalogs[i].0.as_str(), aggregate_id.as_str()) {
                found = true;
            } else {
                i = i + 1;
            }
        }
        let mut list: Vec<(String, CatalogView)> = Vec::new();
        std::mem::swap(&mut list, &mut self.catalogs);
        let ghost is_delete = event is CatalogDeleted;
        if !found {
            let mut v = CatalogView::new();
            let ghost b = v;
            v.update(event);
            if !v.deleted {
                list.push((aggregate_id, v));
                proof {
                    assert(list@.take(before.len() as int) == before);
                    assert(is_blank_catalog_view(b));
                    assert forall|p: int, q: int| 0 <= p < q < list@.len() implies list@[p].0@ != list@[q].0@ by {
                        if q < before.len() {
                            assert(list@[p] == before[p] && list@[q] == before[q]);
                        } else {
                            assert(list@[p] == before[p]);
                        }
                    }
                    assert forall|k: int| 0 <= k < list@.len() implies !(#[trigger] list@[k]).1.deleted by {
                        if k < before.len() {
                            assert(list@[k] == before[k]);
                        }
                    }
                }
            }
        } else {
            proof {
                assert forall|j: int| 0 <= j < before.len() && before[j].0@ == aggregate_id@ implies j == i by {
                    if j < i {
                        assert(before[j].0@ != before[i as int].0@);
                    } else if j > i {
                        assert(before[i as int].0@ != before[j].0@);
                    }
                }
            }
            let (id, mut v) = list.remove(i);
            v.update(event);
            if !v.deleted {
                list.insert(i, (id, v));
                proof {
                    assert forall|p: int, q: int| 0 <= p < q < list@.len() implies list@[p].0@ != list@[q].0@ by {
                        assert(list@[p].0 == before[p].0 && list@[q].0 == before[q].0);
                    }
                    assert forall|k: int| 0 <= k < list@.len() implies !(#[trigger] list@[k]).1.deleted by {
                        if k != i {
                            assert(list@[k] == before[k]);
                        }
                    }
                }
            } else {
                proof {
                    assert(list@ == before.remove(i as int));
                    assert forall|p: int, q: int| 0 <= p < q < list@.len() implies list@[p].0@ != list@[q].0@ by {
                        if q < i {
                            assert(list@[p] == before[p] && list@[q] == before[q]);
                        } else if p < i {
                            assert(list@[p] == before[p] && list@[q] == before[q + 1]);
                        } else {
                            assert(list@[p] == before[p + 1] && list@[q] == before[q + 1]);
                        }
                    }
                    assert forall|k: int| 0 <= k < list@.len() implies !(#[trigger] list@[k]).1.deleted by {
                        if k < i {
                            assert(list@[k] == before[k]);
                        } else {
                            assert(list@[k] == before[k + 1]);
                        }
                    }
                }
            }
        }
        self.catalogs = list;
    }
}

} // verus!
