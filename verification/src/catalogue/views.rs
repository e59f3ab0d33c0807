use vstd::prelude::*;
use crate::catalog::aggregate::append_strings;
use crate::catalogue::aggregate::{
    catalogue_after, catalogue_decided, catalogue_events, is_blank_catalogue, without_id, Catalogue,
};
use crate::catalogue::command::CatalogueCommand;
use crate::catalogue::error::CatalogueError;
use crate::catalogue::event::CatalogueEvent;
use crate::json::str_equal;
use crate::catalog::laws::lemma_entries_not_in_absent;
use crate::text::{contains_string, entries_not_in};

verus! {

/// Whether catalogue view `a` is view `v` after event `e`. The view lists a template id only
/// when it does not hold it yet, and does not track when it changed.
pub open spec fn catalogue_viewed(v: Catalogue, e: CatalogueEvent, a: Catalogue) -> bool {
    &&& a.modified_at == v.modified_at
    &&& match e {
        CatalogueEvent::TemplateIdAdded { template_id, .. } => {
            &&& a.catalogue_id == v.catalogue_id
            &&& a.display == v.display
            &&& a.visibility == v.visibility
            &&& a.template_ids.deep_view() == if v.template_ids.deep_view().contains(template_id@) {
                v.template_ids.deep_view()
            } else {
                v.template_ids.deep_view().push(template_id@)
            }
            &&& a.is_deleted == v.is_deleted
        },
        _ => catalogue_after(v, e, a),
    }
}

impl Catalogue {
    /// Updates the read model of this catalogue with an event.
    pub fn update(&mut self, event: CatalogueEvent)
        ensures
            catalogue_viewed(*old(self), event, *final(self)),
    {
        match event {
            CatalogueEvent::CatalogueCreated { id, display, visibility } => {
                self.catalogue_id = id;
                self.display = display;
                self.visibility = visibility;
            },
            CatalogueEvent::CatalogueDisplayUpdated { display, .. } => {
                self.display = display;
            },
            CatalogueEvent::VisibilityUpdated { visibility, .. } => {
                self.visibility = visibility;
            },
            CatalogueEvent::TemplateIdAdded { template_id, .. } => {
                if !contains_string(&self.template_ids, &template_id) {
                    let ghost tv = template_id@;
                    let mut one: Vec<String> = Vec::new();
                    one.push(template_id);
                    assert(one.deep_view() =~= seq![tv]);
                    let ghost held = self.template_ids.deep_view();
                    append_strings(&mut self.template_ids, one);
                    assert(held + seq![tv] =~= held.push(tv));
                }
            },
            CatalogueEvent::TemplateIdRemoved { template_id, .. } => {
                self.template_ids = without_id(&self.template_ids, &template_id);
            },
            CatalogueEvent::CatalogueDeleted { .. } => {
                self.is_deleted = true;
            },
        }
    }
}

/// A catalogue view whose template ids are distinct keeps them distinct under every event.
pub proof fn lemma_view_ids_stay_distinct(v: Catalogue, e: CatalogueEvent, a: Catalogue)
    requires
        forall|i: int, j: int| 0 <= i < j < v.template_ids.deep_view().len() ==> v.template_ids.deep_view()[i]
            != v.template_ids.deep_view()[j],
        catalogue_viewed(v, e, a),
    ensures
        forall|i: int, j: int| 0 <= i < j < a.template_ids.deep_view().len() ==> a.template_ids.deep_view()[i]
            != a.template_ids.deep_view()[j],
{
    let s = v.template_ids.deep_view();
    match e {
        CatalogueEvent::TemplateIdAdded { template_id, .. } => {
            if !s.contains(template_id@) {
                let n = s.push(template_id@);
                assert forall|i: int, j: int| 0 <= i < j < n.len() implies n[i] != n[j] by {
                    if j == s.len() {
                        assert(n[i] == s[i]);
                    } else {
                        assert(n[i] == s[i] && n[j] == s[j]);
                    }
                }
            }
        },
        CatalogueEvent::TemplateIdRemoved { template_id, .. } => {
            lemma_not_in_distinct(s, seq![template_id@]);
        },
        _ => {},
    }
}

proof fn lemma_not_in_distinct(s: Seq<Seq<char>>, among: Seq<Seq<char>>)
    requires
        forall|i: int, j: int| 0 <= i < j < s.len() ==> s[i] != s[j],
    ensures
        forall|i: int, j: int| 0 <= i < j < entries_not_in(s, among).len() ==> entries_not_in(s, among)[i]
            != entries_not_in(s, among)[j],
        forall|i: int| 0 <= i < entries_not_in(s, among).len() ==> s.contains(#[trigger] entries_not_in(s, among)[i]),
    decreases s.len(),
{
    if s.len() > 0 {
        let p = s.drop_last();
        assert forall|i: int, j: int| 0 <= i < j < p.len() implies p[i] != p[j] by {
            assert(p[i] == s[i] && p[j] == s[j]);
        }
        lemma_not_in_distinct(p, among);
        let w = entries_not_in(s, among);
        let wp = entries_not_in(p, among);
        assert forall|i: int| 0 <= i < w.len() implies s.contains(#[trigger] w[i]) by {
            if i < wp.len() {
                assert(w[i] == wp[i]);
                let k = choose|k: int| 0 <= k < p.len() && p[k] == wp[i];
                assert(s[k] == p[k]);
            } else {
                assert(w[i] == s[s.len() - 1]);
            }
        }
        assert forall|i: int, j: int| 0 <= i < j < w.len() implies w[i] != w[j] by {
            if j < wp.len() {
                assert(w[i] == wp[i] && w[j] == wp[j]);
            } else {
                assert(w[i] == wp[i]);
                let k = choose|k: int| 0 <= k < p.len() && p[k] == wp[i];
                assert(s[k] != s[s.len() - 1]);
            }
        }
    }
}

/// Adding a template that the catalogue already holds records nothing; the aggregate never
/// records an id twice.
pub proof fn lemma_add_held_template_records_nothing(
    c: Catalogue,
    cmd: CatalogueCommand,
    r: Result<Vec<CatalogueEvent>, CatalogueError>,
)
    requires
        cmd matches CatalogueCommand::AddTemplateId { template_id, .. } && c.template_ids.deep_view().contains(template_id@),
        catalogue_decided(c, cmd, true, r),
    ensures
        r is Ok,
        catalogue_events(r).len() == 0,
{
}

/// The read model of all catalogues, keyed by aggregate id in order of first appearance;
/// each id occurs once.
pub struct AllCataloguesView {
    catalogues: Vec<(String, Catalogue)>,
}

impl AllCataloguesView {
    #[verifier::type_invariant]
    spec fn inv(self) -> bool {
        forall|i: int, j: int| 0 <= i < j < self.catalogues@.len() ==> self.catalogues@[i].0@ != self.catalogues@[j].0@
    }

    /// The listed catalogues with their ids.
    pub closed spec fn entries(self) -> Seq<(String, Catalogue)> {
        self.catalogues@
    }

    /// An empty read model.
    pub fn new() -> (r: Self)
        ensures
            r.entries().len() == 0,
    {
        AllCataloguesView { catalogues: Vec::new() }
    }

    /// The number of listed catalogues.
    pub fn len(&self) -> (r: usize)
        ensures
            r == self.entries().len(),
    {
        self.catalogues.len()
    }

    /// The catalogue listed under `id`.
    pub fn get(&self, id: &str) -> (r: Option<&Catalogue>)
        ensures
            match r {
                Some(c) => exists|i: int| 0 <= i < self.entries().len() && self.entries()[i].0@ == id@ && self.entries()[i].1 == *c,
                None => forall|i: int| 0 <= i < self.entries().len() ==> self.entries()[i].0@ != id@,
            },
    {
        let mut i: usize = 0;
        while i < self.catalogues.len()
            invariant
                i <= self.catalogues@.len(),
                forall|k: int| 0 <= k < i ==> self.catalogues@[k].0@ != id@,
            decreases self.catalogues.len() - i,
        {
            if str_equal(self.catalogues[i].0.as_str(), id) {
                assert(self.entries()[i as int].0@ == id@);
                return Some(&self.catalogues[i].1);
            }
            i = i + 1;
        }
        None
    }

    /// Updates the catalogue listed under `aggregate_id` with an event, listing a blank
    /// catalogue under that id first when none is.
    pub fn update(&mut self, aggregate_id: String, event: CatalogueEvent)
        ensures
            forall|i: int| 0 <= i < old(self).entries().len() && old(self).entries()[i].0@ == aggregate_id@ ==> {
                &&& final(self).entries().len() == old(self).entries().len()
                &&& final(self).entries()[i].0 == old(self).entries()[i].0
                &&& catalogue_viewed(old(self).entries()[i].1, event, final(self).entries()[i].1)
                &&& forall|j: int| 0 <= j < old(self).entries().len() && j != i ==> final(self).entries()[j] == old(self).entries()[j]
            },
            (forall|i: int| 0 <= i < old(self).entries().len() ==> old(self).entries()[i].0@ != aggregate_id@) ==> {
                &&& final(self).entries().len() == old(self).entries().len() + 1
                &&& final(self).entries().take(old(self).entries().len() as int) == old(self).entries()
                &&& final(self).entries().last().0 == aggregate_id
                &&& exists|b: Catalogue| is_blank_catalogue(b) && catalogue_viewed(b, event, final(self).entries().last().1)
            },
    {
        proof { use_type_invariant(&*self); }
        let ghost before = self.catalogues@;
        let mut i: usize = 0;
        let mut found = false;
        while i < self.catalogues.len() && !found
            invariant
                i <= self.catalogues@.len(),
                self.catalogues@ == before,
                forall|k: int| 0 <= k < i ==> self.catalogues@[k].0@ != aggregate_id@,
                found ==> i < before.len() && before[i as int].0@ == aggregate_id@,
            decreases self.catalogues.len() - i + (if found { 0int } else { 1int }),
        {
            if str_equal(self.catalogues[i].0.as_str(), aggregate_id.as_str()) {
                found = true;
            } else {
                i = i + 1;
            }
        }
        let mut list: Vec<(String, Catalogue)> = Vec::new();
        std::mem::swap(&mut list, &mut self.catalogues);
        if !found {
            let mut c = Catalogue::default();
            let ghost b = c;
            c.update(event);
            list.push((aggregate_id, c));
            proof {
                assert(is_blank_catalogue(b) && catalogue_viewed(b, event, list@.last().1));
                assert(list@.take(before.len() as int) == before);
                assert forall|p: int, q: int| 0 <= p < q < list@.len() implies list@[p].0@ != list@[q].0@ by {
                    if q < before.len() {
                        assert(list@[p] == before[p] && list@[q] == before[q]);
                    } else {
                        assert(list@[p] == before[p]);
                    }
                }
            }
        } else {
            proof {
                assert forall|j: int| 0 <= j < before.len() && before[j].0@ == aggregate_id@ implies j == i by {
                    if j < i {
                        assert(before[j].0@ != before[i as int].0@);
                    } else if j > i {
                        assert(before[i as int].0@ != before[j].0@);
                    }
                }
            }
            let (id, mut c) = list.remove(i);
            c.update(event);
            list.insert(i, (id, c));
            proof {
                assert forall|p: int, q: int| 0 <= p < q < list@.len() implies list@[p].0@ != list@[q].0@ by {
                    assert(list@[p].0 == before[p].0 && list@[q].0 == before[q].0);
                }
            }
        }
        self.catalogues = list;
    }
}

/// Each catalogue event takes effect, in the aggregate (`a`) and in the read model (`v`):
/// a new display or visibility is the one held afterwards, an added template is held, a
/// removed one is not.
pub proof fn lemma_catalogue_events_take_effect(c: Catalogue, e: CatalogueEvent, a: Catalogue, v: Catalogue)
    requires
        catalogue_after(c, e, a),
        catalogue_viewed(c, e, v),
    ensures
        e matches CatalogueEvent::CatalogueDisplayUpdated { display, .. } ==> a.display == display && v.display == display,
        e matches CatalogueEvent::VisibilityUpdated { visibility, .. } ==> a.visibility == visibility && v.visibility
            == visibility,
        e matches CatalogueEvent::TemplateIdAdded { template_id, .. } ==> a.template_ids.deep_view().contains(
            template_id@,
        ) && v.template_ids.deep_view().contains(template_id@),
        e matches CatalogueEvent::TemplateIdRemoved { template_id, .. } ==> !a.template_ids.deep_view().contains(
            template_id@,
        ) && !v.template_ids.deep_view().contains(template_id@),
{
    match e {
        CatalogueEvent::TemplateIdAdded { template_id, .. } => {
            let s = c.template_ids.deep_view().push(template_id@);
            assert(s[s.len() - 1] == template_id@);
        },
        CatalogueEvent::TemplateIdRemoved { template_id, .. } => {
            let out = entries_not_in(c.template_ids.deep_view(), seq![template_id@]);
            lemma_entries_not_in_absent(c.template_ids.deep_view(), seq![template_id@]);
            assert(seq![template_id@].contains(template_id@)) by {
                assert(seq![template_id@][0] == template_id@);
            }
            if out.contains(template_id@) {
                let k = choose|k: int| 0 <= k < out.len() && out[k] == template_id@;
                assert(!seq![template_id@].contains(out[k]));
            }
        },
        _ => {},
    }
}

} // verus!
