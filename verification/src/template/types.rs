use vstd::prelude::*;
use crate::json::{str_equal, Json};

verus! {

/// A logo shown with a template.
#[derive(Debug, Clone, PartialEq, Eq)]
pub struct Logo {
    pub uri: String,
    pub alt_text: Option<String>,
}

/// How a template is displayed.
#[derive(Debug, Clone, PartialEq, Eq)]
pub struct Display {
    pub name: String,
    pub logo: Option<Logo>,
}

/// The credential data model of a template.
#[derive(Debug, Clone, Copy, PartialEq, Eq, Structural)]
pub enum DataModel {
    W3CVcDataModelV1_1,
    W3CVcDataModelV2_0,
    OpenBadges3_0,
    EuropeanLearningModelV3_3,
}

impl Default for DataModel {
    fn default() -> (r: Self)
        ensures
            r == DataModel::W3CVcDataModelV2_0,
    {
        DataModel::W3CVcDataModelV2_0
    }
}

/// Who holds credentials issued from a template.
#[derive(Debug, Clone, Copy, PartialEq, Eq, Structural)]
pub enum HolderType {
    Individual,
    Organization,
}

impl Default for HolderType {
    fn default() -> (r: Self)
        ensures
            r == HolderType::Individual,
    {
        HolderType::Individual
    }
}

/// The lifecycle status of a template.
#[derive(Debug, Clone, Copy, PartialEq, Eq, Structural)]
pub enum Status {
    Draft,
    Published,
    Archived,
    Deleted,
}

impl Default for Status {
    fn default() -> (r: Self)
        ensures
            r == Status::Draft,
    {
        Status::Draft
    }
}

/// Whether a template is listed publicly.
#[derive(Debug, Clone, Copy, PartialEq, Eq, Structural)]
pub enum Visibility {
    Private,
    Public,
}

impl Default for Visibility {
    fn default() -> (r: Self)
        ensures
            r == Visibility::Private,
    {
        Visibility::Private
    }
}

/// When credentials issued from a template expire.
#[derive(Debug, Clone, PartialEq, Eq)]
pub enum Expiration {
    /// Never expires.
    Never,
    /// Relative duration in ISO 8601 format, e.g. `"P3DT4H"`.
    Duration(String),
    /// Absolute datetime in ISO 8601 format, e.g. `"2026-12-31T23:59:59Z"`.
    DateTime(String),
}

/// The default expiration: a relative 90 days (`P90D`).
pub open spec fn default_expiration_text() -> Seq<char> {
    "P90D"@
}

impl Default for Expiration {
    fn default() -> (r: Self)
        ensures
            r matches Expiration::Duration(d) && d@ == default_expiration_text(),
    {
        Expiration::Duration(String::from_str("P90D"))
    }
}

/// Per-property metadata of a template schema.
#[derive(Debug, Clone, Copy, PartialEq, Eq, Structural)]
pub struct PropertyAttribute {
    pub selectively_disclosable: bool,
    /// Whether the property's leaf field must stay in the schema; decided by the data model.
    pub non_removable: bool,
}

impl PropertyAttribute {
    /// Creates a new `PropertyAttribute`.
    pub fn new(selectively_disclosable: bool, non_removable: bool) -> (r: Self)
        ensures
            r.selectively_disclosable == selectively_disclosable,
            r.non_removable == non_removable,
    {
        PropertyAttribute { selectively_disclosable, non_removable }
    }

    /// Returns whether this property is selectively disclosable.
    pub fn is_selectively_disclosable(&self) -> (r: bool)
        ensures
            r == self.selectively_disclosable,
    {
        self.selectively_disclosable
    }

    /// A copy of this attribute with `non_removable` forced to `false`.
    pub fn strip_non_removable(self) -> (r: Self)
        ensures
            r.selectively_disclosable == self.selectively_disclosable,
            !r.non_removable,
    {
        PropertyAttribute { non_removable: false, ..self }
    }
}

/// The keys of a sequence of attribute entries, in order.
pub open spec fn entry_keys(es: Seq<(Seq<char>, PropertyAttribute)>) -> Seq<Seq<char>>
    decreases es.len(),
{
    if es.len() == 0 {
        Seq::empty()
    } else {
        entry_keys(es.drop_last()).push(es.last().0)
    }
}

pub proof fn lemma_entry_keys(es: Seq<(Seq<char>, PropertyAttribute)>)
    ensures
        entry_keys(es).len() == es.len(),
        forall|i: int| 0 <= i < es.len() ==> #[trigger] entry_keys(es)[i] == es[i].0,
    decreases es.len(),
{
    if es.len() > 0 {
        lemma_entry_keys(es.drop_last());
    }
}

/// Whether no key occurs twice among the entries.
pub open spec fn distinct_keys(es: Seq<(Seq<char>, PropertyAttribute)>) -> bool {
    forall|i: int, j: int| 0 <= i < j < es.len() ==> es[i].0 != es[j].0
}

/// The attribute that the entries give each key.
pub open spec fn entries_map(es: Seq<(Seq<char>, PropertyAttribute)>) -> Map<Seq<char>, PropertyAttribute> {
    Map::new(
        |k: Seq<char>| exists|i: int| 0 <= i < es.len() && es[i].0 == k,
        |k: Seq<char>| es[choose|i: int| 0 <= i < es.len() && es[i].0 == k].1,
    )
}

/// With distinct keys, each entry is what the map gives its key.
pub proof fn lemma_entries_map_at(es: Seq<(Seq<char>, PropertyAttribute)>, j: int)
    requires
        distinct_keys(es),
        0 <= j < es.len(),
    ensures
        entries_map(es).contains_key(es[j].0),
        entries_map(es)[es[j].0] == es[j].1,
{
    let k = es[j].0;
    assert(exists|i: int| 0 <= i < es.len() && es[i].0 == k);
    let c = choose|i: int| 0 <= i < es.len() && es[i].0 == k;
    if c != j {
        if c < j {
            assert(es[c].0 != es[j].0);
        } else {
            assert(es[j].0 != es[c].0);
        }
    }
}

proof fn lemma_entries_map_update(es: Seq<(Seq<char>, PropertyAttribute)>, i: int, a: PropertyAttribute)
    requires
        distinct_keys(es),
        0 <= i < es.len(),
    ensures
        distinct_keys(es.update(i, (es[i].0, a))),
        entries_map(es.update(i, (es[i].0, a))) == entries_map(es).insert(es[i].0, a),
{
    let k = es[i].0;
    let ns = es.update(i, (k, a));
    assert forall|p: int, q: int| 0 <= p < q < ns.len() implies ns[p].0 != ns[q].0 by {
        assert(ns[p].0 == es[p].0 && ns[q].0 == es[q].0);
    }
    let m = entries_map(ns);
    let e = entries_map(es).insert(k, a);
    assert forall|x: Seq<char>| m.contains_key(x) == e.contains_key(x) by {
        if m.contains_key(x) {
            let c = choose|j: int| 0 <= j < ns.len() && ns[j].0 == x;
            assert(es[c].0 == x);
        }
        if entries_map(es).contains_key(x) {
            let c = choose|j: int| 0 <= j < es.len() && es[j].0 == x;
            assert(ns[c].0 == x);
        }
        if x == k {
            assert(ns[i].0 == x);
        }
    }
    assert forall|x: Seq<char>| #[trigger] m.contains_key(x) implies m[x] == e[x] by {
        let c = choose|j: int| 0 <= j < ns.len() && ns[j].0 == x;
        lemma_entries_map_at(ns, c);
        lemma_entries_map_at(es, c);
    }
    assert(m =~= e);
}

proof fn lemma_entries_map_push(es: Seq<(Seq<char>, PropertyAttribute)>, k: Seq<char>, a: PropertyAttribute)
    requires
        distinct_keys(es),
        forall|i: int| 0 <= i < es.len() ==> es[i].0 != k,
    ensures
        distinct_keys(es.push((k, a))),
        entries_map(es.push((k, a))) == entries_map(es).insert(k, a),
{
    let ns = es.push((k, a));
    assert forall|p: int, q: int| 0 <= p < q < ns.len() implies ns[p].0 != ns[q].0 by {
        if q < es.len() {
            assert(ns[p].0 == es[p].0 && ns[q].0 == es[q].0);
        } else {
            assert(ns[p].0 == es[p].0);
        }
    }
    let m = entries_map(ns);
    let e = entries_map(es).insert(k, a);
    assert forall|x: Seq<char>| m.contains_key(x) == e.contains_key(x) by {
        if m.contains_key(x) {
            let c = choose|j: int| 0 <= j < ns.len() && ns[j].0 == x;
            if c < es.len() {
                assert(es[c].0 == x);
            }
        }
        if entries_map(es).contains_key(x) {
            let c = choose|j: int| 0 <= j < es.len() && es[j].0 == x;
            assert(ns[c].0 == x);
        }
        if x == k {
            assert(ns[es.len() as int].0 == x);
        }
    }
    assert forall|x: Seq<char>| #[trigger] m.contains_key(x) implies m[x] == e[x] by {
        let c = choose|j: int| 0 <= j < ns.len() && ns[j].0 == x;
        lemma_entries_map_at(ns, c);
        if c < es.len() {
            lemma_entries_map_at(es, c);
        }
    }
    assert(m =~= e);
}

/// Attributes of schema properties keyed by JSON Pointer path; each key occurs once.
/// Entries keep the order in which they were first inserted.
#[derive(Debug, PartialEq, Eq)]
pub struct AttributeMap {
    entries: Vec<(String, PropertyAttribute)>,
}

/// The entries of an attribute map as values.
pub open spec fn entries_view(v: Seq<(String, PropertyAttribute)>) -> Seq<(Seq<char>, PropertyAttribute)> {
    Seq::new(v.len(), |i: int| (v[i].0@, v[i].1))
}

impl AttributeMap {
    #[verifier::type_invariant]
    spec fn inv(self) -> bool {
        distinct_keys(entries_view(self.entries@))
    }

    /// The entries, in insertion order.
    pub closed spec fn entries_seq(self) -> Seq<(Seq<char>, PropertyAttribute)> {
        entries_view(self.entries@)
    }

    /// The keys, in insertion order.
    pub open spec fn keys_seq(self) -> Seq<Seq<char>> {
        entry_keys(self.entries_seq())
    }

    /// The attribute stored under each key.
    pub open spec fn as_map(self) -> Map<Seq<char>, PropertyAttribute> {
        entries_map(self.entries_seq())
    }

    /// An empty map.
    pub fn new() -> (r: Self)
        ensures
            r.entries_seq() == Seq::<(Seq<char>, PropertyAttribute)>::empty(),
    {
        AttributeMap { entries: Vec::new() }
    }

    /// The number of entries.
    pub fn len(&self) -> (r: usize)
        ensures
            r == self.entries_seq().len(),
    {
        self.entries.len()
    }

    /// The key of entry `i`.
    pub fn key_at(&self, i: usize) -> (r: &String)
        requires
            i < self.entries_seq().len(),
        ensures
            r@ == self.entries_seq()[i as int].0,
    {
        &self.entries[i].0
    }

    /// The attribute of entry `i`.
    pub fn attr_at(&self, i: usize) -> (r: PropertyAttribute)
        requires
            i < self.entries_seq().len(),
        ensures
            r == self.entries_seq()[i as int].1,
    {
        self.entries[i].1
    }

    /// The position of `key`, if present.
    pub fn find(&self, key: &str) -> (r: Option<usize>)
        ensures
            match r {
                Some(i) => i < self.entries_seq().len() && self.entries_seq()[i as int].0 == key@,
                None => forall|i: int| 0 <= i < self.entries_seq().len() ==> self.entries_seq()[i].0 != key@,
            },
    {
        let mut i: usize = 0;
        while i < self.entries.len()
            invariant
                i <= self.entries@.len(),
                forall|k: int| 0 <= k < i ==> self.entries_seq()[k].0 != key@,
            decreases self.entries.len() - i,
        {
            if str_equal(self.entries[i].0.as_str(), key) {
                return Some(i);
            }
            i = i + 1;
        }
        None
    }

    /// Replaces the attribute of entry `i`, keeping its key.
    pub fn set_attr_at(&mut self, i: usize, attr: PropertyAttribute)
        requires
            i < old(self).entries_seq().len(),
        ensures
            final(self).entries_seq() == old(self).entries_seq().update(i as int, (old(self).entries_seq()[i as int].0, attr)),
    {
        proof { use_type_invariant(&*self); }
        let ghost old_es = self.entries_seq();
        let mut es: Vec<(String, PropertyAttribute)> = Vec::new();
        std::mem::swap(&mut es, &mut self.entries);
        let k = es[i].0.clone();
        es.set(i, (k, attr));
        proof {
            assert(entries_view(es@) == old_es.update(i as int, (old_es[i as int].0, attr)));
            assert(distinct_keys(entries_view(es@)));
        }
        self.entries = es;
    }

    /// The attribute stored under `key`.
    pub fn get(&self, key: &str) -> (r: Option<PropertyAttribute>)
        ensures
            match r {
                Some(a) => self.as_map().contains_key(key@) && self.as_map()[key@] == a,
                None => !self.as_map().contains_key(key@),
            },
    {
        proof { use_type_invariant(self); }
        match self.find(key) {
            Some(i) => {
                let a = self.entries[i].1;
                proof {
                    let es = self.entries_seq();
                    assert(self.as_map().contains_key(key@));
                    let c = choose|j: int| 0 <= j < es.len() && es[j].0 == key@;
                    assert(c == i);
                }
                Some(a)
            },
            None => None,
        }
    }

    /// Stores `attr` under `key`: a present key keeps its position and takes the new
    /// attribute, a new key is appended.
    pub fn insert(&mut self, key: String, attr: PropertyAttribute)
        ensures
            forall|i: int|
                0 <= i < old(self).entries_seq().len() && old(self).entries_seq()[i].0 == key@
                    ==> final(self).entries_seq() == old(self).entries_seq().update(i, (key@, attr)),
            (forall|i: int|
                0 <= i < old(self).entries_seq().len() ==> old(self).entries_seq()[i].0 != key@)
                ==> final(self).entries_seq() == old(self).entries_seq().push((key@, attr)),
            final(self).as_map() == old(self).as_map().insert(key@, attr),
    {
        proof { use_type_invariant(&*self); }
        let ghost old_es = self.entries_seq();
        match self.find(key.as_str()) {
            Some(i) => {
                let mut es: Vec<(String, PropertyAttribute)> = Vec::new();
                std::mem::swap(&mut es, &mut self.entries);
                es.set(i, (key, attr));
                proof {
                    assert(entries_view(es@) == old_es.update(i as int, (key@, attr)));
                    lemma_entries_map_update(old_es, i as int, attr);
                }
                self.entries = es;
            },
            None => {
                let mut es: Vec<(String, PropertyAttribute)> = Vec::new();
                std::mem::swap(&mut es, &mut self.entries);
                es.push((key, attr));
                proof {
                    assert(entries_view(es@) == old_es.push((key@, attr)));
                    lemma_entries_map_push(old_es, key@, attr);
                }
                self.entries = es;
            },
        }
    }
}

/// The entries whose keys are among `paths`, in order.
pub open spec fn entries_within(
    es: Seq<(Seq<char>, PropertyAttribute)>,
    paths: Seq<Seq<char>>,
) -> Seq<(Seq<char>, PropertyAttribute)>
    decreases es.len(),
{
    if es.len() == 0 {
        es
    } else if paths.contains(es.last().0) {
        entries_within(es.drop_last(), paths).push(es.last())
    } else {
        entries_within(es.drop_last(), paths)
    }
}

impl AttributeMap {
    /// The entries whose keys are among `paths`, in their order.
    pub fn restricted_to(&self, paths: &Vec<String>) -> (r: AttributeMap)
        ensures
            r.entries_seq() == entries_within(self.entries_seq(), paths.deep_view()),
    {
        proof { use_type_invariant(self); }
        let ghost es = self.entries_seq();
        let mut out: Vec<(String, PropertyAttribute)> = Vec::new();
        let mut i: usize = 0;
        while i < self.entries.len()
            invariant
                i <= es.len(),
                es == self.entries_seq(),
                es.len() == self.entries@.len(),
                distinct_keys(es),
                distinct_keys(entries_view(out@)),
                entries_view(out@) == entries_within(es.take(i as int), paths.deep_view()),
                forall|j: int| 0 <= j < out@.len() ==> exists|k: int| 0 <= k < i && #[trigger] entries_view(out@)[j] == es[k],
            decreases es.len() - i,
        {
            assert(es.take(i + 1).drop_last() == es.take(i as int));
            assert(es.take(i + 1).last() == es[i as int]);
            if crate::text::contains_string(paths, &self.entries[i].0) {
                let k = self.entries[i].0.clone();
                let ghost before = entries_view(out@);
                out.push((k, self.entries[i].1));
                proof {
                    assert(entries_view(out@) == before.push(es[i as int]));
                    assert forall|p: int, q: int| 0 <= p < q < entries_view(out@).len() implies
                        entries_view(out@)[p].0 != entries_view(out@)[q].0 by {
                        if q == before.len() {
                            assert(entries_view(out@)[p] == before[p]);
                            let k2 = choose|k: int| 0 <= k < i && #[trigger] before[p] == es[k];
                            assert(es[k2].0 != es[i as int].0);
                        } else {
                            assert(entries_view(out@)[p] == before[p]);
                            assert(entries_view(out@)[q] == before[q]);
                        }
                    }
                    assert forall|j: int| 0 <= j < out@.len() implies exists|k: int| 0 <= k < i + 1 && #[trigger] entries_view(out@)[j] == es[k] by {
                        if j == before.len() {
                            assert(entries_view(out@)[j] == es[i as int]);
                        } else {
                            assert(entries_view(out@)[j] == before[j]);
                            let k2 = choose|k: int| 0 <= k < i && #[trigger] before[j] == es[k];
                            assert(entries_view(out@)[j] == es[k2]);
                        }
                    }
                }
            }
            i = i + 1;
        }
        assert(es.take(es.len() as int) == es);
        AttributeMap { entries: out }
    }
}

impl Clone for AttributeMap {
    fn clone(&self) -> (r: Self)
        ensures
            r.entries_seq() == self.entries_seq(),
    {
        proof { use_type_invariant(self); }
        let mut es: Vec<(String, PropertyAttribute)> = Vec::new();
        let mut i: usize = 0;
        while i < self.entries.len()
            invariant
                i <= self.entries@.len(),
                es@.len() == i,
                forall|k: int| 0 <= k < i ==> es@[k].0@ == self.entries@[k].0@ && es@[k].1 == self.entries@[k].1,
            decreases self.entries.len() - i,
        {
            let k = self.entries[i].0.clone();
            es.push((k, self.entries[i].1));
            i = i + 1;
        }
        assert(entries_view(es@) =~= self.entries_seq());
        AttributeMap { entries: es }
    }
}

/// How the holder of a credential is authorized.
#[derive(Debug, Clone, PartialEq, Eq, Default)]
pub struct Authorization {
    pub pre_authorized: bool,
    pub tx_code_constraints: Option<TxCodeConstraints>,
}

/// How a transaction code is typed in.
#[derive(Debug, Clone, Copy, PartialEq, Eq, Structural)]
pub enum InputMode {
    Numeric,
    Text,
}

/// Constraints on the transaction code of a pre-authorized credential offer.
#[derive(Debug, Clone, PartialEq, Eq, Default)]
pub struct TxCodeConstraints {
    pub input_mode: Option<InputMode>,
    pub length: Option<u32>,
    pub description: Option<String>,
}

/// A credential template.
#[derive(Debug, Clone, PartialEq)]
pub struct Template {
    pub template_id: String,
    pub source_template_id: Option<String>,
    pub title: String,
    pub display: Option<Display>,
    pub data_model: DataModel,
    pub holder_type: HolderType,
    pub modified_at: Option<String>,
    pub tags: Option<Vec<String>>,
    pub status: Status,
    pub visibility: Visibility,
    pub credential_expiration: Expiration,
    pub description: Option<String>,
    pub type_: Vec<String>,
    /// JSON schema which defines the structure of the actual content of the credential.
    pub schema: Option<Json>,
    pub schema_properties_attributes: Option<AttributeMap>,
    pub holder_authorization: Authorization,
}

/// Whether `t` is the default template: empty strings and lists, nothing optional set,
/// the defaults of each enumeration and a `P90D` expiration.
pub open spec fn is_default_template(t: Template) -> bool {
    &&& t.template_id@ == Seq::<char>::empty()
    &&& t.status == Status::Draft
    &&& has_default_content(t)
}

/// Whether every field of `t` but its id and status holds its default value.
pub open spec fn has_default_content(t: Template) -> bool {
    &&& t.source_template_id is None
    &&& t.title@ == Seq::<char>::empty()
    &&& t.display is None
    &&& t.data_model == DataModel::W3CVcDataModelV2_0
    &&& t.holder_type == HolderType::Individual
    &&& t.modified_at is None
    &&& t.tags is None
    &&& t.visibility == Visibility::Private
    &&& t.credential_expiration matches Expiration::Duration(d) && d@ == default_expiration_text()
    &&& t.description is None
    &&& t.type_@.len() == 0
    &&& t.schema is None
    &&& t.schema_properties_attributes is None
    &&& !t.holder_authorization.pre_authorized
    &&& t.holder_authorization.tx_code_constraints is None
}

impl Default for Template {
    fn default() -> (r: Self)
        ensures
            is_default_template(r),
    {
        Template {
            template_id: String::new(),
            source_template_id: None,
            title: String::new(),
            display: None,
            data_model: DataModel::W3CVcDataModelV2_0,
            holder_type: HolderType::Individual,
            modified_at: None,
            tags: None,
            status: Status::Draft,
            visibility: Visibility::Private,
            credential_expiration: Expiration::default(),
            description: None,
            type_: Vec::new(),
            schema: None,
            schema_properties_attributes: None,
            holder_authorization: Authorization { pre_authorized: false, tx_code_constraints: None },
        }
    }
}

} // verus!
