use vstd::prelude::*;
use crate::json::str_equal;
use crate::reissuance::aggregate::{reissuance_applied, Reissuance};
use crate::reissuance::event::ReissuanceEvent;

verus! {

impl Reissuance {
    /// Updates the read model of this relation with an event; it follows the aggregate.
    pub fn update(&mut self, event: ReissuanceEvent)
        ensures
            *final(self) == reissuance_applied(*old(self), event),
    {
        self.apply(event);
    }
}

/// Whether a relation holds the default value.
pub open spec fn is_blank_reissuance(t: Reissuance) -> bool {
    &&& t.reissuance_id@.len() == 0
    &&& t.original_credential_id@.len() == 0
    &&& t.new_credential_id@.len() == 0
    &&& t.offer_id@.len() == 0
    &&& t.credential_configuration_id@.len() == 0
    &&& t.reason is None
    &&& t.trigger_type is None
    &&& t.triggered_by is None
    &&& t.status_action is None
    &&& t.created_at is None
}

fn blank_reissuance() -> (r: Reissuance)
    ensures
        is_blank_reissuance(r),
{
    Reissuance {
        reissuance_id: String::new(),
        original_credential_id: String::new(),
        new_credential_id: String::new(),
        offer_id: String::new(),
        credential_configuration_id: String::new(),
        reason: None,
        trigger_type: None,
        triggered_by: None,
        status_action: None,
        created_at: None,
    }
}

/// The read model of all reissuance relations, keyed by aggregate id in order of first
/// appearance; each id occurs once.
pub struct AllReissuancesView {
    reissuances: Vec<(String, Reissuance)>,
}

impl AllReissuancesView {
    #[verifier::type_invariant]
    spec fn inv(self) -> bool {
        forall|i: int, j: int| 0 <= i < j < self.reissuances@.len() ==> self.reissuances@[i].0@ != self.reissuances@[j].0@
    }

    /// The listed relations with their ids.
    pub closed spec fn entries(self) -> Seq<(String, Reissuance)> {
        self.reissuances@
    }

    /// An empty read model.
    pub fn new() -> (r: Self)
        ensures
            r.entries().len() == 0,
    {
        AllReissuancesView { reissuances: Vec::new() }
    }

    /// The number of listed relations.
    pub fn len(&self) -> (r: usize)
        ensures
            r == self.entries().len(),
    {
        self.reissuances.len()
    }

    /// The relation listed under `id`.
    pub fn get(&self, id: &str) -> (r: Option<&Reissuance>)
        ensures
            match r {
                Some(t) => exists|i: int| 0 <= i < self.entries().len() && self.entries()[i].0@ == id@ && self.entries()[i].1 == *t,
                None => forall|i: int| 0 <= i < self.entries().len() ==> self.entries()[i].0@ != id@,
            },
    {
        let mut i: usize = 0;
        while i < self.reissuances.len()
            invariant
                i <= self.reissuances@.len(),
                forall|k: int| 0 <= k < i ==> self.reissuances@[k].0@ != id@,
            decreases self.reissuances.len() - i,
        {
            if str_equal(self.reissuances[i].0.as_str(), id) {
                assert(self.entries()[i as int].0@ == id@);
                return Some(&self.reissuances[i].1);
            }
            i = i + 1;
        }
        None
    }

    /// Updates the relation listed under `aggregate_id` with an event, listing a blank
    /// relation under that id first when none is.
    pub fn update(&mut self, aggregate_id: String, event: ReissuanceEvent)
        ensures
            forall|i: int| 0 <= i < old(self).entries().len() && old(self).entries()[i].0@ == aggregate_id@ ==> {
                &&& final(self).entries().len() == old(self).entries().len()
                &&& final(self).entries()[i].0 == old(self).entries()[i].0
                &&& final(self).entries()[i].1 == reissuance_applied(old(self).entries()[i].1, event)
                &&& forall|j: int| 0 <= j < old(self).entries().len() && j != i ==> final(self).entries()[j] == old(self).entries()[j]
            },
            (forall|i: int| 0 <= i < old(self).entries().len() ==> old(self).entries()[i].0@ != aggregate_id@) ==> {
                &&& final(self).entries().len() == old(self).entries().len() + 1
                &&& final(self).entries().take(old(self).entries().len() as int) == old(self).entries()
                &&& final(self).entries().last().0 == aggregate_id
                &&& exists|b: Reissuance| is_blank_reissuance(b) && final(self).entries().last().1 == reissuance_applied(b, event)
            },
    {
        proof { use_type_invariant(&*self); }
        let ghost before = self.reissuances@;
        let mut i: usize = 0;
        let mut found = false;
        while i < self.reissuances.len() && !found
            invariant
                i <= self.reissuances@.len(),
                self.reissuances@ == before,
                forall|k: int| 0 <= k < i ==> self.reissuances@[k].0@ != aggregate_id@,
                found ==> i < before.len() && before[i as int].0@ == aggregate_id@,
            decreases self.reissuances.len() - i + (if found { 0int } else { 1int }),
        {
            if str_equal(self.reissuances[i].0.as_str(), aggregate_id.as_str()) {
                found = true;
            } else {
                i = i + 1;
            }
        }
        let mut list: Vec<(String, Reissuance)> = Vec::new();
        std::mem::swap(&mut list, &mut self.reissuances);
        if !found {
            let mut t = blank_reissuance();
            let ghost b = t;
            t.update(event);
            list.push((aggregate_id, t));
            proof {
                assert(is_blank_reissuance(b) && list@.last().1 == reissuance_applied(b, event));
                assert(list@.take(before.len() as int) == before);
                assert forall|p: int, q: int| 0 <= p < q < list@.len() implies list@[p].0@ != list@[q].0@ by {
                    if q < before.len() {
                        assert(list@[p] == before[p] && list@[q] == before[q]);
                    } else {
                        assert(list@[p] == before[p]);
                    }
                }
            }
        } else {
            proof {
                assert forall|j: int| 0 <= j < before.len() && before[j].0@ == aggregate_id@ implies j == i by {
                    if j < i {
                        assert(before[j].0@ != before[i as int].0@);
                    } else if j > i {
                        assert(before[i as int].0@ != before[j].0@);
                    }
                }
            }
            let (id, mut t) = list.remove(i);
            t.update(event);
            list.insert(i, (id, t));
            proof {
                assert forall|p: int, q: int| 0 <= p < q < list@.len() implies list@[p].0@ != list@[q].0@ by {
                    assert(list@[p].0 == before[p].0 && list@[q].0 == before[q].0);
                }
            }
        }
        self.reissuances = list;
    }
}

} // verus!
