use vstd::prelude::*;
use crate::template::views::AllTemplatesView;

verus! {

/// What a catalog asks of the rest of the system.
pub trait CatalogServices {
    /// The ids among `ids` for which no template exists.
    fn check_all_templates_exist(&self, ids: &Vec<String>) -> Vec<String>;
}

/// Whether the read model of all templates lists `id`.
pub open spec fn lists_template(v: AllTemplatesView, id: Seq<char>) -> bool {
    exists|j: int| 0 <= j < v.entries().len() && v.entries()[j].0@ == id
}

/// The ids among `ids` that the read model of all templates does not list, in order.
impl CatalogServices for AllTemplatesView {
    fn check_all_templates_exist(&self, ids: &Vec<String>) -> (r: Vec<String>)
        ensures
            r.deep_view() == ids.deep_view().filter(|id: Seq<char>| !lists_template(*self, id)),
    {
        let ghost dv = ids.deep_view();
        let mut missing: Vec<String> = Vec::new();
        let mut k: usize = 0;
        while k < ids.len()
            invariant
                k <= ids@.len(),
                dv == ids.deep_view(),
                missing.deep_view() == dv.take(k as int).filter(|id: Seq<char>| !lists_template(*self, id)),
            decreases ids.len() - k,
        {
            let found = self.get(ids[k].as_str()).is_some();
            let ghost before = missing.deep_view();
            assert(dv.take(k + 1).drop_last() == dv.take(k as int));
            reveal(Seq::filter);
            if !found {
                missing.push(ids[k].clone());
                assert(missing.deep_view() =~= before.push(dv[k as int]));
            } else {
                assert(lists_template(*self, dv[k as int]));
            }
            k = k + 1;
        }
        assert(dv.take(ids.len() as int) == dv);
        missing
    }
}

} // verus!
