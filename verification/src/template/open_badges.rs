use vstd::prelude::*;
use crate::json::{
    Json, JsonView, field,
    lemma_view_members, member, member_get, object_members, opt_view, properties, properties_of,
    str_equal, string_value, view_members,
};
use crate::text::{chars_of, contains_string, sort_strings, sorted_text, string_from_chars};
use crate::template::normalize::drop_empty;
use crate::template::error::{TemplateError, TemplateErrorView, unit_result_view};
use crate::json::{lemma_properties_decrease, lemma_member_value_decreases, opt_json_equal, copy_json, view_items, lemma_view_items};
use crate::text::{join, seq_join};

verus! {

/// The `$defs` of the OpenBadges 3.0 JSON Schema `ob`, when it has an object there.
pub open spec fn ob_defs(ob: JsonView) -> Option<Seq<(Seq<char>, JsonView)>> {
    object_members(field(ob, "$defs"@))
}

/// The `properties` members of the definition named `name`.
pub open spec fn def_properties(defs: Seq<(Seq<char>, JsonView)>, name: Seq<char>) -> Option<Seq<(Seq<char>, JsonView)>> {
    match member(defs, name) {
        Some(d) => properties_of(d),
        None => None,
    }
}

pub open spec fn defs_prefix() -> Seq<char> {
    "#/$defs/"@
}

/// The definition a property schema refers to through `"$ref": "#/$defs/<name>"`.
pub open spec fn ref_target(prop: JsonView) -> Option<Seq<char>> {
    match string_value(field(prop, "$ref"@)) {
        Some(r) => if r.len() >= defs_prefix().len() && r.subrange(0, defs_prefix().len() as int) == defs_prefix() {
            Some(r.subrange(defs_prefix().len() as int, r.len() as int))
        } else {
            None
        },
        None => None,
    }
}

/// The path of property `name` below `path` (paths have no leading slash).
pub open spec fn child_path(path: Seq<char>, name: Seq<char>) -> Seq<char> {
    if path.len() == 0 {
        name
    } else {
        path + seq!['/'] + name
    }
}

/// How many definitions have a name outside `stack`.
pub open spec fn unvisited(defs: Seq<(Seq<char>, JsonView)>, stack: Seq<Seq<char>>) -> nat
    decreases defs.len(),
{
    if defs.len() == 0 {
        0
    } else {
        unvisited(defs.drop_last(), stack) + (if stack.contains(defs.last().0) { 0nat } else { 1nat })
    }
}

pub proof fn lemma_unvisited_monotone(defs: Seq<(Seq<char>, JsonView)>, stack: Seq<Seq<char>>, x: Seq<char>)
    ensures
        unvisited(defs, stack.push(x)) <= unvisited(defs, stack),
        (exists|i: int| 0 <= i < defs.len() && defs[i].0 == x) && !stack.contains(x)
            ==> unvisited(defs, stack.push(x)) < unvisited(defs, stack),
    decreases defs.len(),
{
    if defs.len() > 0 {
        lemma_unvisited_monotone(defs.drop_last(), stack, x);
        assert(forall|y: Seq<char>| stack.contains(y) ==> stack.push(x).contains(y)) by {
            assert forall|y: Seq<char>| stack.contains(y) implies stack.push(x).contains(y) by {
                let k = choose|k: int| 0 <= k < stack.len() && stack[k] == y;
                assert(stack.push(x)[k] == y);
            }
        }
        assert(stack.push(x)[stack.len() as int] == x);
        if (exists|i: int| 0 <= i < defs.len() && defs[i].0 == x) && !stack.contains(x) {
            let i = choose|i: int| 0 <= i < defs.len() && defs[i].0 == x;
            if i < defs.len() - 1 {
                assert(defs.drop_last()[i].0 == x);
            }
        }
    }
}

pub proof fn lemma_member_has_key(ms: Seq<(Seq<char>, JsonView)>, key: Seq<char>)
    requires
        member(ms, key) is Some,
    ensures
        exists|i: int| 0 <= i < ms.len() && ms[i].0 == key,
    decreases ms.len(),
{
    if ms[0].0 == key {
        assert(ms[0].0 == key);
    } else {
        lemma_member_has_key(ms.drop_first(), key);
        let i = choose|i: int| 0 <= i < ms.drop_first().len() && ms.drop_first()[i].0 == key;
        assert(ms[i + 1].0 == key);
    }
}

pub proof fn lemma_visit_decreases(defs: Seq<(Seq<char>, JsonView)>, name: Seq<char>, stack: Seq<Seq<char>>)
    requires
        def_properties(defs, name) is Some,
        !stack.contains(name),
    ensures
        unvisited(defs, stack.push(name)) < unvisited(defs, stack),
{
    lemma_member_has_key(defs, name);
    lemma_unvisited_monotone(defs, stack, name);
}

/// `(path, definition name)` pairs reached from definition `name` at `path` by following
/// `$ref` links depth first, not entering a definition already on the `stack`.
pub open spec fn collect_defs(
    defs: Seq<(Seq<char>, JsonView)>,
    name: Seq<char>,
    path: Seq<char>,
    stack: Seq<Seq<char>>,
) -> Seq<(Seq<char>, Seq<char>)>
    decreases unvisited(defs, stack), 0nat,
{
    if stack.contains(name) {
        Seq::empty()
    } else {
        seq![(path, name)] + match def_properties(defs, name) {
            Some(props) => {
                proof { lemma_visit_decreases(defs, name, stack); }
                collect_props(defs, props, path, stack.push(name))
            },
            None => Seq::empty(),
        }
    }
}

pub open spec fn collect_props(
    defs: Seq<(Seq<char>, JsonView)>,
    props: Seq<(Seq<char>, JsonView)>,
    path: Seq<char>,
    stack: Seq<Seq<char>>,
) -> Seq<(Seq<char>, Seq<char>)>
    decreases unvisited(defs, stack), props.len(),
{
    if props.len() == 0 {
        Seq::empty()
    } else {
        collect_props(defs, props.drop_last(), path, stack) + match ref_target(props.last().1) {
            Some(next) => collect_defs(defs, next, child_path(path, props.last().0), stack),
            None => Seq::empty(),
        }
    }
}

pub open spec fn root_def_name() -> Seq<char> {
    "AchievementSubject"@
}

/// The schema paths, relative to the credential subject, at which each OB 3.0 definition
/// applies, found by following `$ref` links from `AchievementSubject`.
pub open spec fn ob_path_to_def(ob: JsonView) -> Seq<(Seq<char>, Seq<char>)> {
    match ob_defs(ob) {
        Some(d) => collect_defs(d, root_def_name(), Seq::empty(), Seq::empty()),
        None => Seq::empty(),
    }
}

/// The deep view of a list of `(path, name)` pairs.
pub open spec fn pairs_view(v: Seq<(String, String)>) -> Seq<(Seq<char>, Seq<char>)> {
    Seq::new(v.len(), |i: int| (v[i].0@, v[i].1@))
}

fn def_props<'a>(defs: &'a Vec<(String, Json)>, name: &str) -> (r: Option<&'a Vec<(String, Json)>>)
    ensures
        match r {
            Some(ps) => def_properties(view_members(defs@), name@) == Some(view_members(ps@)),
            None => def_properties(view_members(defs@), name@) is None,
        },
{
    match member_get(defs, name) {
        Some(d) => properties(d),
        None => None,
    }
}

/// Whether `s` starts with `prefix`; the rest when it does.
fn strip_prefix(s: &str, prefix: &str) -> (r: Option<String>)
    ensures
        match r {
            Some(rest) => s@.len() >= prefix@.len() && s@.subrange(0, prefix@.len() as int) == prefix@
                && rest@ == s@.subrange(prefix@.len() as int, s@.len() as int),
            None => !(s@.len() >= prefix@.len() && s@.subrange(0, prefix@.len() as int) == prefix@),
        },
{
    let cs = chars_of(s);
    let ps = chars_of(prefix);
    if cs.len() < ps.len() {
        return None;
    }
    let mut i: usize = 0;
    while i < ps.len()
        invariant
            cs@ == s@,
            ps@ == prefix@,
            ps.len() <= cs.len(),
            i <= ps.len(),
            cs@.subrange(0, i as int) == ps@.subrange(0, i as int),
        decreases ps.len() - i,
    {
        if cs[i] != ps[i] {
            assert(s@.subrange(0, prefix@.len() as int)[i as int] != prefix@[i as int]);
            return None;
        }
        assert(cs@.subrange(0, i + 1) == cs@.subrange(0, i as int).push(cs@[i as int]));
        assert(ps@.subrange(0, i + 1) == ps@.subrange(0, i as int).push(ps@[i as int]));
        i = i + 1;
    }
    assert(ps@.subrange(0, ps.len() as int) == ps@);
    let mut rest: Vec<char> = Vec::new();
    let mut j: usize = ps.len();
    while j < cs.len()
        invariant
            cs@ == s@,
            ps.len() <= j <= cs.len(),
            rest@ == cs@.subrange(ps.len() as int, j as int),
        decreases cs.len() - j,
    {
        rest.push(cs[j]);
        assert(cs@.subrange(ps.len() as int, j + 1) == cs@.subrange(ps.len() as int, j as int).push(cs@[j as int]));
        j = j + 1;
    }
    Some(crate::text::string_from_chars(&rest))
}

/// The definition name a property schema refers to.
fn ref_name(prop: &Json) -> (r: Option<String>)
    ensures
        match r {
            Some(n) => ref_target(prop@) == Some(n@),
            None => ref_target(prop@) is None,
        },
{
    match prop.get("$ref") {
        Some(v) => match v.as_str() {
            Some(s) => strip_prefix(s.as_str(), "#/$defs/"),
            None => None,
        },
        None => None,
    }
}

/// The path of property `name` below `path`.
fn join_child(path: &String, name: &String) -> (r: String)
    ensures
        r@ == child_path(path@, name@),
{
    if path.unicode_len() == 0 {
        name.clone()
    } else {
        let r = path.clone().concat("/").concat(name.as_str());
        proof { reveal_strlit("/"); }
        r
    }
}

fn collect_path_to_def(
    defs: &Vec<(String, Json)>,
    name: &String,
    path: &String,
    result: &mut Vec<(String, String)>,
    stack: &mut Vec<String>,
)
    ensures
        pairs_view(final(result)@) == pairs_view(old(result)@) + collect_defs(view_members(defs@), name@, path@, old(stack).deep_view()),
        final(stack).deep_view() == old(stack).deep_view(),
    decreases unvisited(view_members(defs@), old(stack).deep_view()), 0nat,
{
    let ghost dv = view_members(defs@);
    let ghost st = stack.deep_view();
    let ghost start = pairs_view(result@);
    if contains_string(stack, name) {
        assert(pairs_view(result@) == start + Seq::<(Seq<char>, Seq<char>)>::empty());
        return;
    }
    result.push((path.clone(), name.clone()));
    assert(pairs_view(result@) == start + seq![(path@, name@)]);
    match def_props(defs, name.as_str()) {
        None => {
            assert(pairs_view(result@) == start + (seq![(path@, name@)] + Seq::<(Seq<char>, Seq<char>)>::empty()));
        },
        Some(props) => {
            stack.push(name.clone());
            let ghost st2 = stack.deep_view();
            assert(st2 == st.push(name@));
            proof {
                lemma_visit_decreases(dv, name@, st);
                lemma_view_members(props@);
            }
            let ghost pv = view_members(props@);
            let ghost mid = pairs_view(result@);
            let mut i: usize = 0;
            while i < props.len()
                invariant
                    i <= props.len(),
                    dv == view_members(defs@),
                    pv == view_members(props@),
                    pv.len() == props@.len(),
                    forall|k: int| 0 <= k < props@.len() ==> #[trigger] pv[k] == (props@[k].0@, props@[k].1@),
                    stack.deep_view() == st2,
                    st2 == st.push(name@),
                    st == old(stack).deep_view(),
                    unvisited(dv, st2) < unvisited(dv, st),
                    pairs_view(result@) == mid + collect_props(dv, pv.take(i as int), path@, st2),
                decreases props.len() - i,
            {
                assert(pv.take(i + 1).drop_last() == pv.take(i as int));
                assert(pv.take(i + 1).last() == pv[i as int]);
                let ghost before = pairs_view(result@);
                match ref_name(&props[i].1) {
                    Some(next) => {
                        let cp = join_child(path, &props[i].0);
                        collect_path_to_def(defs, &next, &cp, result, stack);
                    },
                    None => {
                        assert(pairs_view(result@) == before + Seq::<(Seq<char>, Seq<char>)>::empty());
                    },
                }
                i = i + 1;
            }
            assert(pv.take(props.len() as int) == pv);
            let ghost before_pop = stack@;
            stack.pop();
            assert(stack@ == before_pop.drop_last());
            assert(stack.deep_view() =~= st2.drop_last());
            assert(st2.drop_last() == st);
        },
    }
}

/// `(path, definition name)` pairs of the OB 3.0 JSON Schema, from `AchievementSubject`.
fn ob_build_path_to_def(defs: &Vec<(String, Json)>) -> (r: Vec<(String, String)>)
    ensures
        pairs_view(r@) == collect_defs(view_members(defs@), root_def_name(), Seq::empty(), Seq::empty()),
{
    let mut result: Vec<(String, String)> = Vec::new();
    let mut stack: Vec<String> = Vec::new();
    let root = String::from_str("AchievementSubject");
    let path = String::new();
    assert(stack.deep_view() == Seq::<Seq<char>>::empty());
    collect_path_to_def(defs, &root, &path, &mut result, &mut stack);
    assert(pairs_view(result@) == collect_defs(view_members(defs@), root_def_name(), Seq::empty(), Seq::empty()));
    result
}


/// A map from schema path to required child keys, as a list of distinct-key entries.
pub open spec fn required_view(v: Seq<(String, Vec<String>)>) -> Seq<(Seq<char>, Seq<Seq<char>>)> {
    Seq::new(v.len(), |i: int| (v[i].0@, v[i].1.deep_view()))
}

/// The position of the first entry with key `k`, or -1.
pub open spec fn key_index(m: Seq<(Seq<char>, Seq<Seq<char>>)>, k: Seq<char>) -> int
    decreases m.len(),
{
    if m.len() == 0 {
        -1
    } else if m[0].0 == k {
        0
    } else if key_index(m.drop_first(), k) < 0 {
        -1
    } else {
        key_index(m.drop_first(), k) + 1
    }
}

pub proof fn lemma_key_index(m: Seq<(Seq<char>, Seq<Seq<char>>)>, k: Seq<char>)
    ensures
        -1 <= key_index(m, k) < m.len(),
        key_index(m, k) >= 0 ==> m[key_index(m, k)].0 == k,
        forall|j: int| 0 <= j < m.len() && (key_index(m, k) < 0 || j < key_index(m, k)) ==> m[j].0 != k,
    decreases m.len(),
{
    if m.len() > 0 && m[0].0 != k {
        lemma_key_index(m.drop_first(), k);
        assert forall|j: int| 0 <= j < m.len() && (key_index(m, k) < 0 || j < key_index(m, k)) implies m[j].0 != k by {
            if j > 0 {
                assert(m[j] == m.drop_first()[j - 1]);
            }
        }
    }
}

/// The children stored under `k` (the first entry with that key).
pub open spec fn lookup(m: Seq<(Seq<char>, Seq<Seq<char>>)>, k: Seq<char>) -> Option<Seq<Seq<char>>> {
    if key_index(m, k) >= 0 {
        Some(m[key_index(m, k)].1)
    } else {
        None
    }
}

/// `m` with `v` stored under `k`: in place of the entry with that key, else appended.
pub open spec fn upsert(m: Seq<(Seq<char>, Seq<Seq<char>>)>, k: Seq<char>, v: Seq<Seq<char>>) -> Seq<(Seq<char>, Seq<Seq<char>>)> {
    if key_index(m, k) >= 0 {
        m.update(key_index(m, k), (k, v))
    } else {
        m.push((k, v))
    }
}

fn find_key(m: &Vec<(String, Vec<String>)>, k: &str) -> (r: Option<usize>)
    ensures
        match r {
            Some(i) => key_index(required_view(m@), k@) == i as int,
            None => key_index(required_view(m@), k@) < 0,
        },
{
    let ghost mv = required_view(m@);
    proof { lemma_key_index(mv, k@); }
    let mut i: usize = 0;
    while i < m.len()
        invariant
            i <= m.len(),
            mv == required_view(m@),
            -1 <= key_index(mv, k@) < mv.len(),
            key_index(mv, k@) >= 0 ==> mv[key_index(mv, k@)].0 == k@,
            forall|j: int| 0 <= j < mv.len() && (key_index(mv, k@) < 0 || j < key_index(mv, k@)) ==> mv[j].0 != k@,
            forall|j: int| 0 <= j < i ==> mv[j].0 != k@,
        decreases m.len() - i,
    {
        assert(mv[i as int].0 == m@[i as int].0@);
        if str_equal(m[i].0.as_str(), k) {
            return Some(i);
        }
        i = i + 1;
    }
    None
}

/// Stores `v` under `k` in place of an entry with that key, else appends it.
fn upsert_entry(m: &mut Vec<(String, Vec<String>)>, k: String, v: Vec<String>)
    ensures
        required_view(final(m)@) == upsert(required_view(old(m)@), k@, v.deep_view()),
{
    let ghost mv = required_view(m@);
    assert(mv.len() == m@.len());
    proof { lemma_key_index(mv, k@); }
    match find_key(m, k.as_str()) {
        Some(i) => {
            m.set(i, (k, v));
            assert(required_view(m@) =~= mv.update(i as int, (k@, v.deep_view())));
        },
        None => {
            m.push((k, v));
            assert(required_view(m@) =~= mv.push((k@, v.deep_view())));
        },
    }
}

/// The required keys of a definition's `required` array, without the system-managed
/// `id` and `type`.
pub open spec fn required_strings(items: Seq<JsonView>) -> Seq<Seq<char>>
    decreases items.len(),
{
    if items.len() == 0 {
        Seq::empty()
    } else {
        let rest = required_strings(items.drop_last());
        match items.last() {
            JsonView::Str(s) => if s != "id"@ && s != "type"@ { rest.push(s) } else { rest },
            _ => rest,
        }
    }
}

/// The required child keys that the definition `name` declares.
pub open spec fn def_required(defs: Seq<(Seq<char>, JsonView)>, name: Seq<char>) -> Seq<Seq<char>> {
    match member(defs, name) {
        Some(d) => match field(d, "required"@) {
            Some(JsonView::Array(items)) => required_strings(items),
            _ => Seq::empty(),
        },
        None => Seq::empty(),
    }
}

/// The path → required children map built from `(path, definition)` pairs, keeping only
/// paths with required children; a later pair for the same path replaces an earlier one.
pub open spec fn required_map(defs: Seq<(Seq<char>, JsonView)>, ptd: Seq<(Seq<char>, Seq<char>)>) -> Seq<(Seq<char>, Seq<Seq<char>>)>
    decreases ptd.len(),
{
    if ptd.len() == 0 {
        Seq::empty()
    } else {
        let m = required_map(defs, ptd.drop_last());
        let r = def_required(defs, ptd.last().1);
        if r.len() > 0 { upsert(m, ptd.last().0, r) } else { m }
    }
}

/// The required children per schema path that the OB 3.0 specification gives.
pub open spec fn spec_required(ob: JsonView) -> Seq<(Seq<char>, Seq<Seq<char>>)> {
    match ob_defs(ob) {
        Some(d) => required_map(d, collect_defs(d, root_def_name(), Seq::empty(), Seq::empty())),
        None => Seq::empty(),
    }
}

/// Required children beyond the OB 3.0 specification.
pub open spec fn opinionated_required() -> Seq<(Seq<char>, Seq<Seq<char>>)> {
    seq![("achievement/criteria"@, seq!["narrative"@])]
}

/// `m` with each of `children` added under `path` unless already there.
pub open spec fn add_children(m: Seq<(Seq<char>, Seq<Seq<char>>)>, path: Seq<char>, children: Seq<Seq<char>>) -> Seq<(Seq<char>, Seq<Seq<char>>)>
    decreases children.len(),
{
    if children.len() == 0 {
        upsert(m, path, match lookup(m, path) { Some(c) => c, None => Seq::empty() })
    } else {
        let m2 = add_children(m, path, children.drop_last());
        let cur = match lookup(m2, path) { Some(c) => c, None => Seq::empty() };
        upsert(m2, path, if cur.contains(children.last()) { cur } else { cur.push(children.last()) })
    }
}

/// `m` with every opinionated entry merged in.
pub open spec fn add_entries(m: Seq<(Seq<char>, Seq<Seq<char>>)>, ops: Seq<(Seq<char>, Seq<Seq<char>>)>) -> Seq<(Seq<char>, Seq<Seq<char>>)>
    decreases ops.len(),
{
    if ops.len() == 0 {
        m
    } else {
        add_children(add_entries(m, ops.drop_last()), ops.last().0, ops.last().1)
    }
}

/// The required children per schema path: OB 3.0 specification and opinionated extras.
pub open spec fn combined_required(ob: JsonView) -> Seq<(Seq<char>, Seq<Seq<char>>)> {
    add_entries(spec_required(ob), opinionated_required())
}

fn required_children(defs: &Vec<(String, Json)>, name: &str) -> (r: Vec<String>)
    ensures
        r.deep_view() == def_required(view_members(defs@), name@),
{
    let mut r: Vec<String> = Vec::new();
    let d = match member_get(defs, name) {
        Some(d) => d,
        None => return r,
    };
    let items = match d.get("required") {
        Some(Json::Array(items)) => items,
        _ => return r,
    };
    let ghost iv = crate::json::view_items(items@);
    proof { crate::json::lemma_view_items(items@); }
    let mut i: usize = 0;
    while i < items.len()
        invariant
            i <= items.len(),
            iv == crate::json::view_items(items@),
            iv.len() == items@.len(),
            forall|k: int| 0 <= k < items@.len() ==> #[trigger] iv[k] == items@[k]@,
            r.deep_view() == required_strings(iv.take(i as int)),
        decreases items.len() - i,
    {
        assert(iv.take(i + 1).drop_last() == iv.take(i as int));
        match &items[i] {
            Json::Str(s) => {
                if !str_equal(s.as_str(), "id") && !str_equal(s.as_str(), "type") {
                    r.push(s.clone());
                }
            },
            _ => {},
        }
        i = i + 1;
    }
    assert(iv.take(items.len() as int) == iv);
    r
}

/// The `$defs` members of the OB 3.0 schema.
fn defs_of(ob: &Json) -> (r: Option<&Vec<(String, Json)>>)
    ensures
        match r {
            Some(d) => ob_defs(ob@) == Some(view_members(d@)),
            None => ob_defs(ob@) is None,
        },
{
    match ob.get("$defs") {
        Some(d) => d.as_object(),
        None => None,
    }
}

/// The required children per schema path that the OB 3.0 specification gives.
fn ob_spec_required_by_path(ob: &Json) -> (r: Vec<(String, Vec<String>)>)
    ensures
        required_view(r@) == spec_required(ob@),
{
    let mut m: Vec<(String, Vec<String>)> = Vec::new();
    let defs = match defs_of(ob) {
        Some(d) => d,
        None => {
            assert(required_view(m@) =~= Seq::<(Seq<char>, Seq<Seq<char>>)>::empty());
            return m;
        },
    };
    let ptd = ob_build_path_to_def(defs);
    let ghost pv = pairs_view(ptd@);
    let ghost dv = view_members(defs@);
    assert(required_view(m@) =~= required_map(dv, pv.take(0)));
    let mut i: usize = 0;
    while i < ptd.len()
        invariant
            i <= ptd.len(),
            pv == pairs_view(ptd@),
            dv == view_members(defs@),
            required_view(m@) == required_map(dv, pv.take(i as int)),
        decreases ptd.len() - i,
    {
        assert(pv.take(i + 1).drop_last() == pv.take(i as int));
        let r = required_children(defs, ptd[i].1.as_str());
        if r.len() > 0 {
            upsert_entry(&mut m, ptd[i].0.clone(), r);
        }
        i = i + 1;
    }
    assert(pv.take(ptd.len() as int) == pv);
    m
}

/// Required children beyond the OB 3.0 specification: `narrative` under
/// `achievement/criteria`, so that templates guide callers to meaningful criteria.
fn ob_opinionated_required_by_path() -> (r: Vec<(String, Vec<String>)>)
    ensures
        required_view(r@) == opinionated_required(),
{
    let mut children: Vec<String> = Vec::new();
    children.push(String::from_str("narrative"));
    let mut r: Vec<(String, Vec<String>)> = Vec::new();
    r.push((String::from_str("achievement/criteria"), children));
    assert(required_view(r@) =~~= opinionated_required());
    r
}

fn lookup_children(m: &Vec<(String, Vec<String>)>, k: &str) -> (r: Vec<String>)
    ensures
        r.deep_view() == match lookup(required_view(m@), k@) { Some(c) => c, None => Seq::empty() },
{
    proof { lemma_key_index(required_view(m@), k@); }
    assert(required_view(m@).len() == m@.len());
    match find_key(m, k) {
        Some(i) => {
            let c = m[i].1.clone();
            assert(c.deep_view() =~= m@[i as int].1.deep_view());
            c
        },
        None => Vec::new(),
    }
}

/// The required child keys per schema path: OB 3.0 specification plus opinionated extras.
fn ob_combined_required_by_path(ob: &Json) -> (r: Vec<(String, Vec<String>)>)
    ensures
        required_view(r@) == combined_required(ob@),
{
    let mut combined = ob_spec_required_by_path(ob);
    let ops = ob_opinionated_required_by_path();
    let ghost ov = required_view(ops@);
    let ghost base = required_view(combined@);
    let mut i: usize = 0;
    while i < ops.len()
        invariant
            i <= ops.len(),
            ov == required_view(ops@),
            required_view(combined@) == add_entries(base, ov.take(i as int)),
        decreases ops.len() - i,
    {
        assert(ov.take(i + 1).drop_last() == ov.take(i as int));
        let path = &ops[i].0;
        let children = &ops[i].1;
        let ghost cv = children.deep_view();
        let ghost m0 = required_view(combined@);
        let cur0 = lookup_children(&combined, path.as_str());
        upsert_entry(&mut combined, path.clone(), cur0);
        let mut j: usize = 0;
        while j < children.len()
            invariant
                j <= children.len(),
                cv == children.deep_view(),
                path@ == ov[i as int].0,
                cv == ov[i as int].1,
                required_view(combined@) == add_children(m0, path@, cv.take(j as int)),
            decreases children.len() - j,
        {
            assert(cv.take(j + 1).drop_last() == cv.take(j as int));
            assert(cv.take(j + 1).last() == cv[j as int]);
            assert(children@[j as int]@ == cv[j as int]);
            let mut cur = lookup_children(&combined, path.as_str());
            let ghost c0 = cur.deep_view();
            if !contains_string(&cur, &children[j]) {
                cur.push(children[j].clone());
                assert(cur.deep_view() =~= c0.push(cv[j as int]));
            }
            let ghost m2 = required_view(combined@);
            assert(m2 == add_children(m0, path@, cv.take(j as int)));
            upsert_entry(&mut combined, path.clone(), cur);
            assert(add_children(m0, path@, cv.take(j + 1)) == upsert(m2, path@, if c0.contains(cv[j as int]) { c0 } else { c0.push(cv[j as int]) }));
            j = j + 1;
        }
        assert(cv.take(children.len() as int) == cv);
        i = i + 1;
    }
    assert(ov.take(ops.len() as int) == ov);
    combined
}


/// The `$defs` members of the OB schema, or none.
pub open spec fn defs_or_empty(ob: JsonView) -> Seq<(Seq<char>, JsonView)> {
    match ob_defs(ob) {
        Some(d) => d,
        None => Seq::empty(),
    }
}

/// The definition name of `path`: that of the last pair with that path.
pub open spec fn def_at_path(ptd: Seq<(Seq<char>, Seq<char>)>, path: Seq<char>) -> Option<Seq<char>>
    decreases ptd.len(),
{
    if ptd.len() == 0 {
        None
    } else if ptd.last().0 == path {
        Some(ptd.last().1)
    } else {
        def_at_path(ptd.drop_last(), path)
    }
}

/// Whether the definition at `path` refers to another definition for property `child`.
pub open spec fn is_intermediate(
    defs: Seq<(Seq<char>, JsonView)>,
    ptd: Seq<(Seq<char>, Seq<char>)>,
    path: Seq<char>,
    child: Seq<char>,
) -> bool {
    match def_at_path(ptd, path) {
        Some(n) => match def_properties(defs, n) {
            Some(ps) => match member(ps, child) {
                Some(p) => field(p, "$ref"@) is Some,
                None => false,
            },
            None => false,
        },
        None => false,
    }
}

/// The JSON Pointer of `child` below schema path `path`.
pub open spec fn full_leaf_path(path: Seq<char>, child: Seq<char>) -> Seq<char> {
    if path.len() == 0 {
        seq!['/'] + child
    } else {
        seq!['/'] + path + seq!['/'] + child
    }
}

pub open spec fn children_leaves(
    defs: Seq<(Seq<char>, JsonView)>,
    ptd: Seq<(Seq<char>, Seq<char>)>,
    path: Seq<char>,
    children: Seq<Seq<char>>,
) -> Seq<Seq<char>>
    decreases children.len(),
{
    if children.len() == 0 {
        Seq::empty()
    } else {
        children_leaves(defs, ptd, path, children.drop_last()) + (if is_intermediate(defs, ptd, path, children.last()) {
            Seq::empty()
        } else {
            seq![full_leaf_path(path, children.last())]
        })
    }
}

pub open spec fn map_leaves(
    defs: Seq<(Seq<char>, JsonView)>,
    ptd: Seq<(Seq<char>, Seq<char>)>,
    m: Seq<(Seq<char>, Seq<Seq<char>>)>,
) -> Seq<Seq<char>>
    decreases m.len(),
{
    if m.len() == 0 {
        Seq::empty()
    } else {
        map_leaves(defs, ptd, m.drop_last()) + children_leaves(defs, ptd, m.last().0, m.last().1)
    }
}

/// The JSON Pointers of the required leaf fields of OB 3.0 templates, in ascending order:
/// the required children (specification and opinionated) that are not themselves a
/// reference to another definition.
pub open spec fn required_leaf_paths(ob: JsonView) -> Seq<Seq<char>> {
    sorted_text(map_leaves(defs_or_empty(ob), ob_path_to_def(ob), combined_required(ob)))
}

fn def_at(ptd: &Vec<(String, String)>, path: &str) -> (r: Option<String>)
    ensures
        match r {
            Some(n) => def_at_path(pairs_view(ptd@), path@) == Some(n@),
            None => def_at_path(pairs_view(ptd@), path@) is None,
        },
{
    let ghost pv = pairs_view(ptd@);
    let mut found: Option<String> = None;
    let mut i: usize = 0;
    while i < ptd.len()
        invariant
            i <= ptd.len(),
            pv == pairs_view(ptd@),
            match found {
                Some(n) => def_at_path(pv.take(i as int), path@) == Some(n@),
                None => def_at_path(pv.take(i as int), path@) is None,
            },
        decreases ptd.len() - i,
    {
        assert(pv.take(i + 1).drop_last() == pv.take(i as int));
        if str_equal(ptd[i].0.as_str(), path) {
            found = Some(ptd[i].1.clone());
        }
        i = i + 1;
    }
    assert(pv.take(ptd.len() as int) == pv);
    found
}

fn intermediate(
    defs: &Vec<(String, Json)>,
    ptd: &Vec<(String, String)>,
    path: &str,
    child: &str,
) -> (r: bool)
    ensures
        r == is_intermediate(view_members(defs@), pairs_view(ptd@), path@, child@),
{
    match def_at(ptd, path) {
        Some(n) => match def_props(defs, n.as_str()) {
            Some(ps) => match member_get(ps, child) {
                Some(p) => p.get("$ref").is_some(),
                None => false,
            },
            None => false,
        },
        None => false,
    }
}

fn full_path_of(path: &String, child: &String) -> (r: String)
    ensures
        r@ == full_leaf_path(path@, child@),
{
    proof { reveal_strlit("/"); }
    if path.unicode_len() == 0 {
        String::from_str("/").concat(child.as_str())
    } else {
        String::from_str("/").concat(path.as_str()).concat("/").concat(child.as_str())
    }
}

/// The JSON Pointer paths of the required leaf fields for OB 3.0 templates, in ascending
/// order; `ob` is the OpenBadges 3.0 JSON Schema.
pub fn open_badges_required_leaf_paths(ob: &Json) -> (r: Vec<String>)
    ensures
        r.deep_view() == required_leaf_paths(ob@),
{
    let combined = ob_combined_required_by_path(ob);
    let empty_defs: Vec<(String, Json)> = Vec::new();
    let defs = match defs_of(ob) {
        Some(d) => d,
        None => &empty_defs,
    };
    assert(view_members(defs@) == defs_or_empty(ob@)) by {
        if ob_defs(ob@) is None {
            assert(view_members(empty_defs@) =~= Seq::<(Seq<char>, JsonView)>::empty());
        }
    }
    let ptd = match defs_of(ob) {
        Some(d) => ob_build_path_to_def(d),
        None => Vec::new(),
    };
    assert(pairs_view(ptd@) == ob_path_to_def(ob@)) by {
        if ob_defs(ob@) is None {
            assert(pairs_view(ptd@) =~= Seq::<(Seq<char>, Seq<char>)>::empty());
        }
    }
    let ghost dv = view_members(defs@);
    let ghost pv = pairs_view(ptd@);
    let ghost cv = required_view(combined@);
    let mut leaves: Vec<String> = Vec::new();
    let mut i: usize = 0;
    while i < combined.len()
        invariant
            i <= combined.len(),
            dv == view_members(defs@),
            pv == pairs_view(ptd@),
            cv == required_view(combined@),
            leaves.deep_view() == map_leaves(dv, pv, cv.take(i as int)),
        decreases combined.len() - i,
    {
        assert(cv.take(i + 1).drop_last() == cv.take(i as int));
        let path = &combined[i].0;
        let children = &combined[i].1;
        let ghost chv = children.deep_view();
        let ghost base = leaves.deep_view();
        let mut j: usize = 0;
        while j < children.len()
            invariant
                j <= children.len(),
                chv == children.deep_view(),
                dv == view_members(defs@),
                pv == pairs_view(ptd@),
                leaves.deep_view() == base + children_leaves(dv, pv, path@, chv.take(j as int)),
            decreases children.len() - j,
        {
            assert(chv.take(j + 1).drop_last() == chv.take(j as int));
            assert(chv.take(j + 1).last() == children@[j as int]@);
            let ghost prev = children_leaves(dv, pv, path@, chv.take(j as int));
            if !intermediate(defs, &ptd, path.as_str(), children[j].as_str()) {
                let fp = full_path_of(path, &children[j]);
                leaves.push(fp);
                assert((base + prev).push(fp@) == base + (prev + seq![fp@]));
            } else {
                assert(prev + Seq::<Seq<char>>::empty() == prev);
            }
            j = j + 1;
        }
        assert(chv.take(children.len() as int) == chv);
        assert(cv[i as int] == (path@, chv));
        i = i + 1;
    }
    assert(cv.take(combined.len() as int) == cv);
    sort_strings(leaves)
}


/// Whether `p` is a child path of `q` through one of `q`'s required children, and is
/// itself a path with required children.
pub open spec fn child_link(m: Seq<(Seq<char>, Seq<Seq<char>>)>, q: Seq<char>, p: Seq<char>) -> bool {
    &&& lookup(m, q) is Some
    &&& exists|i: int| 0 <= i < lookup(m, q).unwrap().len() && p == child_path(q, lookup(m, q).unwrap()[i])
    &&& key_index(m, p) >= 0
}

/// Whether `chain` leads from the root path by required-child links.
pub open spec fn link_chain(m: Seq<(Seq<char>, Seq<Seq<char>>)>, chain: Seq<Seq<char>>) -> bool {
    &&& chain.len() > 0
    &&& chain[0].len() == 0
    &&& forall|i: int| 0 <= i < chain.len() - 1 ==> child_link(m, #[trigger] chain[i], chain[i + 1])
}

/// Whether `p` is reachable from the root path by following required-child links only.
pub open spec fn reachable(m: Seq<(Seq<char>, Seq<Seq<char>>)>, p: Seq<char>) -> bool {
    exists|chain: Seq<Seq<char>>| link_chain(m, chain) && chain.last() == p
}

/// How many entries have a key outside `seen`.
pub open spec fn unseen(m: Seq<(Seq<char>, Seq<Seq<char>>)>, seen: Seq<Seq<char>>) -> nat
    decreases m.len(),
{
    if m.len() == 0 {
        0
    } else {
        unseen(m.drop_last(), seen) + (if seen.contains(m.last().0) { 0nat } else { 1nat })
    }
}

proof fn lemma_unseen_monotone(m: Seq<(Seq<char>, Seq<Seq<char>>)>, seen: Seq<Seq<char>>, x: Seq<char>)
    ensures
        unseen(m, seen.push(x)) <= unseen(m, seen),
        (exists|i: int| 0 <= i < m.len() && m[i].0 == x) && !seen.contains(x)
            ==> unseen(m, seen.push(x)) < unseen(m, seen),
    decreases m.len(),
{
    if m.len() > 0 {
        lemma_unseen_monotone(m.drop_last(), seen, x);
        assert forall|y: Seq<char>| seen.contains(y) implies seen.push(x).contains(y) by {
            let k = choose|k: int| 0 <= k < seen.len() && seen[k] == y;
            assert(seen.push(x)[k] == y);
        }
        assert(seen.push(x)[seen.len() as int] == x);
        if (exists|i: int| 0 <= i < m.len() && m[i].0 == x) && !seen.contains(x) {
            let i = choose|i: int| 0 <= i < m.len() && m[i].0 == x;
            if i < m.len() - 1 {
                assert(m.drop_last()[i].0 == x);
            }
        }
    }
}

proof fn lemma_reach_root(m: Seq<(Seq<char>, Seq<Seq<char>>)>)
    ensures
        reachable(m, Seq::empty()),
{
    let chain = seq![Seq::<char>::empty()];
    assert(link_chain(m, chain));
    assert(chain.last() == Seq::<char>::empty());
}

proof fn lemma_reach_step(m: Seq<(Seq<char>, Seq<Seq<char>>)>, q: Seq<char>, p: Seq<char>)
    requires
        reachable(m, q),
        child_link(m, q, p),
    ensures
        reachable(m, p),
{
    let chain = choose|chain: Seq<Seq<char>>| link_chain(m, chain) && chain.last() == q;
    let c2 = chain.push(p);
    assert forall|i: int| 0 <= i < c2.len() - 1 implies child_link(m, #[trigger] c2[i], c2[i + 1]) by {
        if i < chain.len() - 1 {
            assert(c2[i] == chain[i] && c2[i + 1] == chain[i + 1]);
        } else {
            assert(c2[i] == q && c2[i + 1] == p);
        }
    }
    assert(link_chain(m, c2) && c2.last() == p);
}

proof fn lemma_chain_closed(m: Seq<(Seq<char>, Seq<Seq<char>>)>, r: Seq<Seq<char>>, chain: Seq<Seq<char>>, k: int)
    requires
        r.contains(Seq::<char>::empty()),
        forall|q: Seq<char>, x: Seq<char>| r.contains(q) && child_link(m, q, x) ==> r.contains(x),
        link_chain(m, chain),
        0 <= k < chain.len(),
    ensures
        r.contains(chain[k]),
    decreases k,
{
    if k == 0 {
        assert(chain[0] =~= Seq::<char>::empty());
    } else {
        lemma_chain_closed(m, r, chain, k - 1);
        assert(child_link(m, chain[k - 1], chain[k]));
    }
}

/// The paths of `combined` reachable from the root by following required-child links only,
/// the root included.
fn ob_required_reachable_paths(combined: &Vec<(String, Vec<String>)>) -> (r: Vec<String>)
    ensures
        forall|p: Seq<char>| r.deep_view().contains(p) <==> reachable(required_view(combined@), p),
{
    let ghost m = required_view(combined@);
    let mut visited: Vec<String> = Vec::new();
    visited.push(String::new());
    let mut queue: Vec<String> = Vec::new();
    queue.push(String::new());
    proof {
        lemma_reach_root(m);
        assert(visited.deep_view()[0] == Seq::<char>::empty());
        assert(queue.deep_view()[0] == Seq::<char>::empty());
    }
    while queue.len() > 0
        invariant
            m == required_view(combined@),
            visited.deep_view().contains(Seq::<char>::empty()),
            forall|v: Seq<char>| visited.deep_view().contains(v) ==> reachable(m, v),
            forall|v: Seq<char>| queue.deep_view().contains(v) ==> visited.deep_view().contains(v),
            forall|q: Seq<char>, x: Seq<char>|
                visited.deep_view().contains(q) && !queue.deep_view().contains(q) && child_link(m, q, x)
                    ==> visited.deep_view().contains(x),
        decreases 2 * unseen(m, visited.deep_view()) + queue.len(),
    {
        let ghost measure = 2 * unseen(m, visited.deep_view()) + queue.len();
        let ghost q0 = queue.deep_view();
        let path = queue.pop().unwrap();
        let ghost qd = queue.deep_view();
        proof {
            assert(q0 =~= qd.push(path@));
            assert(q0[q0.len() - 1] == path@);
            assert forall|v: Seq<char>| qd.contains(v) implies q0.contains(v) by {
                let k = choose|k: int| 0 <= k < qd.len() && qd[k] == v;
                assert(q0[k] == v);
            }
        }
        let children = lookup_children(combined, path.as_str());
        let ghost chv = children.deep_view();
        let mut j: usize = 0;
        while j < children.len()
            invariant
                m == required_view(combined@),
                chv == children.deep_view(),
                chv == match lookup(m, path@) { Some(c) => c, None => Seq::empty() },
                visited.deep_view().contains(path@),
                visited.deep_view().contains(Seq::<char>::empty()),
                forall|v: Seq<char>| visited.deep_view().contains(v) ==> reachable(m, v),
                forall|v: Seq<char>| queue.deep_view().contains(v) ==> visited.deep_view().contains(v),
                forall|q: Seq<char>, x: Seq<char>|
                    visited.deep_view().contains(q) && !queue.deep_view().contains(q) && q != path@ && child_link(m, q, x)
                        ==> visited.deep_view().contains(x),
                forall|k: int| 0 <= k < j && key_index(m, child_path(path@, chv[k])) >= 0
                    ==> visited.deep_view().contains(#[trigger] child_path(path@, chv[k])),
                !queue.deep_view().contains(path@) || true,
                2 * unseen(m, visited.deep_view()) + queue.len() < measure,
            decreases children.len() - j,
        {
            let cp = join_child(&path, &children[j]);
            assert(chv[j as int] == children@[j as int]@);
            let is_key = find_key(combined, cp.as_str()).is_some();
            if is_key && !contains_string(&visited, &cp) {
                proof {
                    lemma_key_index(m, cp@);
                    lemma_unseen_monotone(m, visited.deep_view(), cp@);
                    assert(lookup(m, path@) is Some) by {
                        if lookup(m, path@) is None { assert(chv.len() == 0); }
                    }
                    assert(child_link(m, path@, cp@));
                    lemma_reach_step(m, path@, cp@);
                }
                let ghost vd = visited.deep_view();
                let ghost qd2 = queue.deep_view();
                visited.push(cp.clone());
                queue.push(cp);
                proof {
                    assert(visited.deep_view() =~= vd.push(cp@));
                    assert(queue.deep_view() =~= qd2.push(cp@));
                    assert forall|v: Seq<char>| vd.contains(v) implies visited.deep_view().contains(v) by {
                        let k = choose|k: int| 0 <= k < vd.len() && vd[k] == v;
                        assert(visited.deep_view()[k] == v);
                    }
                    assert(visited.deep_view()[vd.len() as int] == cp@);
                    assert forall|v: Seq<char>| visited.deep_view().contains(v) implies reachable(m, v) by {
                        let k = choose|k: int| 0 <= k < visited.deep_view().len() && visited.deep_view()[k] == v;
                        if k < vd.len() { assert(vd[k] == v); }
                    }
                    assert forall|v: Seq<char>| queue.deep_view().contains(v) implies visited.deep_view().contains(v) by {
                        let k = choose|k: int| 0 <= k < queue.deep_view().len() && queue.deep_view()[k] == v;
                        if k < qd2.len() { assert(qd2[k] == v); assert(qd2.contains(v)); }
                    }
                    assert forall|q: Seq<char>, x: Seq<char>|
                        visited.deep_view().contains(q) && !queue.deep_view().contains(q) && q != path@ && child_link(m, q, x)
                            implies visited.deep_view().contains(x) by {
                        let k = choose|k: int| 0 <= k < visited.deep_view().len() && visited.deep_view()[k] == q;
                        if k < vd.len() {
                            assert(vd[k] == q);
                            assert(vd.contains(q));
                            assert(!qd2.contains(q)) by {
                                if qd2.contains(q) {
                                    let t = choose|t: int| 0 <= t < qd2.len() && qd2[t] == q;
                                    assert(queue.deep_view()[t] == q);
                                }
                            }
                        } else {
                            assert(queue.deep_view()[qd2.len() as int] == q);
                        }
                    }
                }
            }
            j = j + 1;
        }
        proof {
            assert forall|x: Seq<char>| child_link(m, path@, x) implies visited.deep_view().contains(x) by {
                let i = choose|i: int| 0 <= i < lookup(m, path@).unwrap().len() && x == child_path(path@, lookup(m, path@).unwrap()[i]);
                assert(chv[i] == lookup(m, path@).unwrap()[i]);
            }
        }
    }
    proof {
        assert forall|p: Seq<char>| reachable(m, p) implies visited.deep_view().contains(p) by {
            let chain = choose|chain: Seq<Seq<char>>| link_chain(m, chain) && chain.last() == p;
            lemma_chain_closed(m, visited.deep_view(), chain, chain.len() - 1);
        }
    }
    visited
}


/// The pieces of `s` between slashes, empty pieces included (`str::split('/')`).
pub open spec fn split_on_slash(s: Seq<char>) -> Seq<Seq<char>>
    decreases s.len(),
{
    if s.len() == 0 {
        seq![Seq::empty()]
    } else {
        let r = split_on_slash(s.drop_last());
        if s.last() == '/' {
            r.push(Seq::empty())
        } else {
            r.update(r.len() - 1, r.last().push(s.last()))
        }
    }
}

pub proof fn lemma_split_nonempty(s: Seq<char>)
    ensures
        split_on_slash(s).len() >= 1,
    decreases s.len(),
{
    if s.len() > 0 {
        lemma_split_nonempty(s.drop_last());
    }
}

/// The non-empty pieces of `s` between slashes.
pub open spec fn path_segments(s: Seq<char>) -> Seq<Seq<char>> {
    drop_empty(split_on_slash(s))
}

/// Splits `s` at every slash (`str::split('/')`).
fn split_slash(s: &str) -> (r: Vec<String>)
    ensures
        r.deep_view() == split_on_slash(s@),
{
    let cs = chars_of(s);
    let mut done: Vec<String> = Vec::new();
    let mut cur: Vec<char> = Vec::new();
    let mut i: usize = 0;
    while i < cs.len()
        invariant
            i <= cs.len(),
            cs@ == s@,
            done.deep_view().push(cur@) == split_on_slash(cs@.take(i as int)),
        decreases cs.len() - i,
    {
        assert(cs@.take(i + 1).drop_last() == cs@.take(i as int));
        let ghost prev = split_on_slash(cs@.take(i as int));
        proof { lemma_split_nonempty(cs@.take(i as int)); }
        if cs[i] == '/' {
            let piece = string_from_chars(&cur);
            done.push(piece);
            cur = Vec::new();
            assert(done.deep_view().push(cur@) =~= prev.push(Seq::empty()));
        } else {
            let ghost d0 = done.deep_view();
            cur.push(cs[i]);
            assert(done.deep_view().push(cur@) =~= prev.update(prev.len() - 1, prev.last().push(cs[i as int])));
        }
        i = i + 1;
    }
    assert(cs@.take(cs.len() as int) == s@);
    let last = string_from_chars(&cur);
    done.push(last);
    done
}

fn non_empty_segments(s: &str) -> (r: Vec<String>)
    ensures
        r.deep_view() == path_segments(s@),
{
    let all = split_slash(s);
    let ghost av = all.deep_view();
    let mut r: Vec<String> = Vec::new();
    let mut i: usize = 0;
    while i < all.len()
        invariant
            i <= all.len(),
            av == all.deep_view(),
            r.deep_view() == drop_empty(av.take(i as int)),
        decreases all.len() - i,
    {
        assert(av.take(i + 1).drop_last() == av.take(i as int));
        if all[i].unicode_len() != 0 {
            r.push(all[i].clone());
        }
        i = i + 1;
    }
    assert(av.take(all.len() as int) == av);
    r
}

/// The schema node reached from `v` by descending through `properties` along `segs`.
pub open spec fn node_at(v: JsonView, segs: Seq<Seq<char>>) -> Option<JsonView>
    decreases segs.len(),
{
    if segs.len() == 0 {
        Some(v)
    } else {
        match properties_of(v) {
            Some(ms) => match member(ms, segs[0]) {
                Some(c) => node_at(c, segs.drop_first()),
                None => None,
            },
            None => None,
        }
    }
}

/// The schema node that declares the field at `path` (non-empty segments only).
pub open spec fn node_at_path_spec(v: JsonView, path: Seq<char>) -> Option<JsonView> {
    node_at(v, path_segments(path))
}

/// The `properties` members of the node at `path`.
pub open spec fn props_at_path_spec(v: JsonView, path: Seq<char>) -> Option<Seq<(Seq<char>, JsonView)>> {
    match node_at_path_spec(v, path) {
        Some(n) => properties_of(n),
        None => None,
    }
}

fn node_at_segments<'a>(schema: &'a Json, segs: &Vec<String>) -> (r: Option<&'a Json>)
    ensures
        opt_view(r) == node_at(schema@, segs.deep_view()),
{
    let ghost sv = segs.deep_view();
    let mut current: &Json = schema;
    let mut i: usize = 0;
    assert(sv.skip(0) == sv);
    while i < segs.len()
        invariant
            i <= segs.len(),
            sv == segs.deep_view(),
            node_at(schema@, sv) == node_at(current@, sv.skip(i as int)),
        decreases segs.len() - i,
    {
        assert(sv.skip(i as int)[0] == segs@[i as int]@);
        assert(sv.skip(i as int).drop_first() == sv.skip(i + 1));
        match properties(current) {
            Some(ms) => match member_get(ms, segs[i].as_str()) {
                Some(c) => {
                    current = c;
                },
                None => return None,
            },
            None => return None,
        }
        i = i + 1;
    }
    assert(sv.skip(segs.len() as int).len() == 0);
    Some(current)
}

/// The schema node that declares the field at `path`.
fn node_at_path<'a>(schema: &'a Json, path: &str) -> (r: Option<&'a Json>)
    ensures
        opt_view(r) == node_at_path_spec(schema@, path@),
{
    let segs = non_empty_segments(path);
    node_at_segments(schema, &segs)
}

/// The `properties` members of the node at `path`.
fn props_at_path<'a>(schema: &'a Json, path: &str) -> (r: Option<&'a Vec<(String, Json)>>)
    ensures
        match r {
            Some(ms) => props_at_path_spec(schema@, path@) == Some(view_members(ms@)),
            None => props_at_path_spec(schema@, path@) is None,
        },
{
    match node_at_path(schema, path) {
        Some(n) => properties(n),
        None => None,
    }
}

/// The position of the last slash of `s`, or -1.
pub open spec fn last_slash(s: Seq<char>) -> int
    decreases s.len(),
{
    if s.len() == 0 {
        -1
    } else if s.last() == '/' {
        s.len() - 1
    } else {
        last_slash(s.drop_last())
    }
}

pub proof fn lemma_last_slash(s: Seq<char>)
    ensures
        -1 <= last_slash(s) < s.len(),
        last_slash(s) >= 0 ==> s[last_slash(s)] == '/',
    decreases s.len(),
{
    if s.len() > 0 && s.last() != '/' {
        lemma_last_slash(s.drop_last());
    }
}

/// A schema path split into its parent path and final segment.
pub open spec fn parent_and_key(s: Seq<char>) -> (Seq<char>, Seq<char>) {
    if last_slash(s) >= 0 {
        (s.subrange(0, last_slash(s)), s.subrange(last_slash(s) + 1, s.len() as int))
    } else {
        (Seq::empty(), s)
    }
}

/// Splits a schema path into its parent path and final segment, e.g. `"profile"` into
/// `("", "profile")` and `"profile/address"` into `("profile", "address")`.
fn split_parent_path(path: &str) -> (r: (String, String))
    ensures
        (r.0@, r.1@) == parent_and_key(path@),
{
    let cs = chars_of(path);
    proof { lemma_last_slash(path@); }
    let mut i: usize = cs.len();
    assert(cs@.take(cs.len() as int) == cs@);
    while i > 0
        invariant
            i <= cs.len(),
            cs@ == path@,
            last_slash(path@) == last_slash(cs@.take(i as int)),
        decreases i,
    {
        assert(cs@.take(i as int).drop_last() == cs@.take(i - 1));
        if cs[i - 1] == '/' {
            let mut head: Vec<char> = Vec::new();
            let mut k: usize = 0;
            while k < i - 1
                invariant
                    k <= i - 1,
                    i <= cs.len(),
                    head@ == cs@.subrange(0, k as int),
                decreases i - 1 - k,
            {
                head.push(cs[k]);
                assert(cs@.subrange(0, k + 1) == cs@.subrange(0, k as int).push(cs@[k as int]));
                k = k + 1;
            }
            let mut tail: Vec<char> = Vec::new();
            let mut k2: usize = i;
            while k2 < cs.len()
                invariant
                    i <= k2 <= cs.len(),
                    tail@ == cs@.subrange(i as int, k2 as int),
                decreases cs.len() - k2,
            {
                tail.push(cs[k2]);
                assert(cs@.subrange(i as int, k2 + 1) == cs@.subrange(i as int, k2 as int).push(cs@[k2 as int]));
                k2 = k2 + 1;
            }
            return (string_from_chars(&head), string_from_chars(&tail));
        }
        i = i - 1;
    }
    assert(cs@.take(0).len() == 0);
    (String::new(), String::from_str(path))
}


pub open spec fn string_type_def() -> JsonView {
    JsonView::Object(seq![("type"@, JsonView::Str("string"@))])
}

pub open spec fn formatted_string_def(format: Seq<char>) -> JsonView {
    JsonView::Object(seq![("type"@, JsonView::Str("string"@)), ("format"@, JsonView::Str(format))])
}

/// The synthetic definition of the recipient `profile` object on the subject root.
pub open spec fn profile_def() -> JsonView {
    JsonView::Object(seq![
        ("type"@, JsonView::Str("object"@)),
        ("properties"@, JsonView::Object(seq![
            ("givenName"@, string_type_def()),
            ("familyName"@, string_type_def()),
            ("email"@, formatted_string_def("email"@)),
            ("dateOfBirth"@, formatted_string_def("date"@)),
        ])),
    ])
}

/// Opinionated synthetic definitions keyed by schema path, for objects that OB 3.0 leaves
/// unvalidated.
pub open spec fn opinionated_defs() -> Seq<(Seq<char>, JsonView)> {
    seq![("profile"@, profile_def())]
}

fn jstr(s: &str) -> (r: Json)
    ensures
        r@ == JsonView::Str(s@),
{
    Json::Str(String::from_str(s))
}

fn string_type_json() -> (r: Json)
    ensures
        r@ == string_type_def(),
{
    let mut ms: Vec<(String, Json)> = Vec::new();
    ms.push((String::from_str("type"), jstr("string")));
    proof { lemma_view_members(ms@); }
    assert(view_members(ms@) =~= seq![("type"@, JsonView::Str("string"@))]);
    let r = Json::Object(ms);
    assert(r@ == JsonView::Object(view_members(ms@)));
    r
}

fn formatted_string_json(format: &str) -> (r: Json)
    ensures
        r@ == formatted_string_def(format@),
{
    let mut ms: Vec<(String, Json)> = Vec::new();
    ms.push((String::from_str("type"), jstr("string")));
    ms.push((String::from_str("format"), jstr(format)));
    proof { lemma_view_members(ms@); }
    assert(view_members(ms@) =~= seq![("type"@, JsonView::Str("string"@)), ("format"@, JsonView::Str(format@))]);
    let r = Json::Object(ms);
    assert(r@ == JsonView::Object(view_members(ms@)));
    r
}

/// Opinionated synthetic definitions: the recipient `profile` object, restricted to
/// `givenName`, `familyName`, `email` (format `email`) and `dateOfBirth` (format `date`).
fn ob_opinionated_defs() -> (r: Vec<(String, Json)>)
    ensures
        view_members(r@) == opinionated_defs(),
{
    let mut props: Vec<(String, Json)> = Vec::new();
    props.push((String::from_str("givenName"), string_type_json()));
    props.push((String::from_str("familyName"), string_type_json()));
    props.push((String::from_str("email"), formatted_string_json("email")));
    props.push((String::from_str("dateOfBirth"), formatted_string_json("date")));
    proof { lemma_view_members(props@); }
    let ghost pv = view_members(props@);
    assert(pv =~= seq![
        ("givenName"@, string_type_def()),
        ("familyName"@, string_type_def()),
        ("email"@, formatted_string_def("email"@)),
        ("dateOfBirth"@, formatted_string_def("date"@)),
    ]);
    let pj = Json::Object(props);
    assert(pj@ == JsonView::Object(pv));
    let mut def: Vec<(String, Json)> = Vec::new();
    def.push((String::from_str("type"), jstr("object")));
    def.push((String::from_str("properties"), pj));
    proof { lemma_view_members(def@); }
    assert(view_members(def@) =~= seq![("type"@, JsonView::Str("object"@)), ("properties"@, pj@)]);
    let dj = Json::Object(def);
    assert(dj@ == profile_def());
    let mut r: Vec<(String, Json)> = Vec::new();
    r.push((String::from_str("profile"), dj));
    proof { lemma_view_members(r@); }
    assert(view_members(r@) =~= opinionated_defs());
    r
}

/// Whether a schema node has exactly the `type` and `format` a synthetic definition declares.
pub open spec fn matches_def(actual: JsonView, expected: JsonView) -> bool {
    field(actual, "type"@) == field(expected, "type"@) && field(actual, "format"@) == field(expected, "format"@)
}

fn schema_matches_def(actual: &Json, expected: &Json) -> (r: bool)
    ensures
        r == matches_def(actual@, expected@),
{
    opt_json_equal(actual.get("type"), expected.get("type")) && opt_json_equal(actual.get("format"), expected.get("format"))
}

pub open spec fn field_mismatches(
    actual: Seq<(Seq<char>, JsonView)>,
    expected: Seq<(Seq<char>, JsonView)>,
    path: Seq<char>,
) -> Seq<Seq<char>>
    decreases expected.len(),
{
    if expected.len() == 0 {
        Seq::empty()
    } else {
        field_mismatches(actual, expected.drop_last(), path) + match member(actual, expected.last().0) {
            Some(a) => if matches_def(a, expected.last().1) {
                Seq::empty()
            } else {
                seq!["/"@ + path + "/"@ + expected.last().0]
            },
            None => Seq::empty(),
        }
    }
}

pub open spec fn def_mismatches(schema: JsonView, path: Seq<char>, def: JsonView) -> Seq<Seq<char>> {
    match node_at_path_spec(schema, path) {
        None => Seq::empty(),
        Some(node) => if !matches_def(node, def) {
            seq!["/"@ + path]
        } else {
            match (properties_of(node), properties_of(def)) {
                (Some(a), Some(e)) => field_mismatches(a, e, path),
                _ => Seq::empty(),
            }
        },
    }
}

pub open spec fn all_mismatches(schema: JsonView, defs: Seq<(Seq<char>, JsonView)>) -> Seq<Seq<char>>
    decreases defs.len(),
{
    if defs.len() == 0 {
        Seq::empty()
    } else {
        all_mismatches(schema, defs.drop_last()) + def_mismatches(schema, defs.last().0, defs.last().1)
    }
}

/// Whether the opinionated fields present in a schema have their declared type and format.
pub open spec fn opinionated_types_check(schema: JsonView) -> Result<(), TemplateErrorView> {
    let mm = all_mismatches(schema, opinionated_defs());
    if mm.len() == 0 {
        Ok(())
    } else {
        Err(TemplateErrorView::InvalidOpenBadgesPropertyType(
            "The following fields do not match the required type/format: ["@ + seq_join(sorted_text(mm), ", "@) + "]"@,
        ))
    }
}

fn slash_join(path: &String, key: &String) -> (r: String)
    ensures
        r@ == "/"@ + path@ + "/"@ + key@,
{
    String::from_str("/").concat(path.as_str()).concat("/").concat(key.as_str())
}

/// Enforces the declared type and format of opinionated fields that are present.
fn validate_ob_opinionated_types(schema: &Json) -> (r: Result<(), TemplateError>)
    ensures
        unit_result_view(r) == opinionated_types_check(schema@),
{
    let defs = ob_opinionated_defs();
    let ghost dv = view_members(defs@);
    proof { lemma_view_members(defs@); }
    let mut mismatched: Vec<String> = Vec::new();
    let mut i: usize = 0;
    while i < defs.len()
        invariant
            i <= defs.len(),
            dv == view_members(defs@),
            dv.len() == defs@.len(),
            forall|k: int| 0 <= k < defs@.len() ==> #[trigger] dv[k] == (defs@[k].0@, defs@[k].1@),
            mismatched.deep_view() == all_mismatches(schema@, dv.take(i as int)),
        decreases defs.len() - i,
    {
        assert(dv.take(i + 1).drop_last() == dv.take(i as int));
        let path = &defs[i].0;
        let def = &defs[i].1;
        let ghost base = mismatched.deep_view();
        match node_at_path(schema, path.as_str()) {
            None => {
                assert(base + Seq::<Seq<char>>::empty() == base);
            },
            Some(node) => {
                if !schema_matches_def(node, def) {
                    mismatched.push(String::from_str("/").concat(path.as_str()));
                    assert(mismatched.deep_view() == base + seq!["/"@ + path@]);
                } else {
                    match (properties(node), properties(def)) {
                        (Some(actual), Some(expected)) => {
                            let ghost ev = view_members(expected@);
                            proof { lemma_view_members(expected@); }
                            let mut j: usize = 0;
                            while j < expected.len()
                                invariant
                                    j <= expected.len(),
                                    ev == view_members(expected@),
                                    ev.len() == expected@.len(),
                                    forall|k: int| 0 <= k < expected@.len() ==> #[trigger] ev[k] == (expected@[k].0@, expected@[k].1@),
                                    mismatched.deep_view() == base + field_mismatches(view_members(actual@), ev.take(j as int), path@),
                                decreases expected.len() - j,
                            {
                                assert(ev.take(j + 1).drop_last() == ev.take(j as int));
                                let ghost prev = field_mismatches(view_members(actual@), ev.take(j as int), path@);
                                match member_get(actual, expected[j].0.as_str()) {
                                    None => {
                                        assert(prev + Seq::<Seq<char>>::empty() == prev);
                                    },
                                    Some(a) => {
                                        if !schema_matches_def(a, &expected[j].1) {
                                            let m = slash_join(path, &expected[j].0);
                                            mismatched.push(m);
                                            assert((base + prev).push(m@) == base + (prev + seq![m@]));
                                        } else {
                                            assert(prev + Seq::<Seq<char>>::empty() == prev);
                                        }
                                    },
                                }
                                j = j + 1;
                            }
                            assert(ev.take(expected.len() as int) == ev);
                        },
                        _ => {
                            assert(base + Seq::<Seq<char>>::empty() == base);
                        },
                    }
                }
            },
        }
        i = i + 1;
    }
    assert(dv.take(defs.len() as int) == dv);
    if mismatched.len() == 0 {
        Ok(())
    } else {
        let sorted = sort_strings(mismatched);
        Err(TemplateError::InvalidOpenBadgesPropertyType(
            String::from_str("The following fields do not match the required type/format: [").concat(
                join(&sorted, ", ").as_str(),
            ).concat("]"),
        ))
    }
}


/// The keys of object members, in order.
pub open spec fn member_keys(ms: Seq<(Seq<char>, JsonView)>) -> Seq<Seq<char>>
    decreases ms.len(),
{
    if ms.len() == 0 {
        Seq::empty()
    } else {
        member_keys(ms.drop_last()).push(ms.last().0)
    }
}

/// The final segments of the opinionated paths whose parent is `path`.
pub open spec fn opinionated_children(ops: Seq<(Seq<char>, JsonView)>, path: Seq<char>) -> Seq<Seq<char>>
    decreases ops.len(),
{
    if ops.len() == 0 {
        Seq::empty()
    } else {
        let (parent, key) = parent_and_key(ops.last().0);
        opinionated_children(ops.drop_last(), path) + (if parent == path { seq![key] } else { Seq::empty() })
    }
}

/// The property names allowed at `path` by definition `def` (none known without one).
pub open spec fn allowed_keys(def: Option<JsonView>, path: Seq<char>) -> Option<Seq<Seq<char>>> {
    match def {
        Some(d) => match properties_of(d) {
            Some(ps) => Some(member_keys(ps) + opinionated_children(opinionated_defs(), path)),
            None => None,
        },
        None => None,
    }
}

/// The keys of `ms` that `allowed` does not hold, in order.
pub open spec fn disallowed_keys(ms: Seq<(Seq<char>, JsonView)>, allowed: Option<Seq<Seq<char>>>) -> Seq<Seq<char>>
    decreases ms.len(),
{
    if ms.len() == 0 {
        Seq::empty()
    } else {
        disallowed_keys(ms.drop_last(), allowed) + match allowed {
            Some(a) => if a.contains(ms.last().0) { Seq::empty() } else { seq![ms.last().0] },
            None => Seq::empty(),
        }
    }
}

/// The definition that governs property `key` of a node governed by `def`: the one its
/// `$ref` names, else the opinionated definition of `cpath`.
pub open spec fn child_def_of(
    def: Option<JsonView>,
    key: Seq<char>,
    cpath: Seq<char>,
    defs: Seq<(Seq<char>, JsonView)>,
) -> Option<JsonView> {
    let via_ref = match def {
        Some(d) => match properties_of(d) {
            Some(ps) => match member(ps, key) {
                Some(p) => match ref_target(p) {
                    Some(n) => member(defs, n),
                    None => None,
                },
                None => None,
            },
            None => None,
        },
        None => None,
    };
    match via_ref {
        Some(x) => Some(x),
        None => member(opinionated_defs(), cpath),
    }
}

pub open spec fn disallowed_message(path: Seq<char>, keys: Seq<Seq<char>>) -> Seq<char> {
    "The following properties are not allowed for OpenBadges 3.0 templates at path `/"@ + path + "`: ["@
        + seq_join(sorted_text(keys), ", "@) + "]"@
}

/// Whether every property name in a template schema is allowed by the OB 3.0 definitions,
/// checking the children of a node before the node itself.
pub open spec fn ob_props_check(
    schema: JsonView,
    path: Seq<char>,
    def: Option<JsonView>,
    defs: Seq<(Seq<char>, JsonView)>,
) -> Result<(), TemplateErrorView>
    decreases schema,
{
    match properties_of(schema) {
        None => Ok(()),
        Some(ms) => {
            proof { lemma_properties_decrease(schema); }
            match children_props_check(ms, path, def, defs) {
                Err(e) => Err(e),
                Ok(()) => {
                    let d = disallowed_keys(ms, allowed_keys(def, path));
                    if d.len() == 0 {
                        Ok(())
                    } else {
                        Err(TemplateErrorView::DisallowedOpenBadgesProperties(disallowed_message(path, d)))
                    }
                },
            }
        },
    }
}

pub open spec fn children_props_check(
    ms: Seq<(Seq<char>, JsonView)>,
    path: Seq<char>,
    def: Option<JsonView>,
    defs: Seq<(Seq<char>, JsonView)>,
) -> Result<(), TemplateErrorView>
    decreases ms,
{
    if ms.len() == 0 {
        Ok(())
    } else {
        match children_props_check(ms.drop_last(), path, def, defs) {
            Err(e) => Err(e),
            Ok(()) => {
                let cp = child_path(path, ms.last().0);
                ob_props_check(ms.last().1, cp, child_def_of(def, ms.last().0, cp, defs), defs)
            },
        }
    }
}

fn opt_json_view_ref(o: Option<&Json>) -> (r: Option<&Json>)
    ensures
        r == o,
{
    o
}

fn allowed_at(def: Option<&Json>, path: &String) -> (r: Option<Vec<String>>)
    ensures
        match r {
            Some(v) => allowed_keys(opt_view(def), path@) == Some(v.deep_view()),
            None => allowed_keys(opt_view(def), path@) is None,
        },
{
    let d = match def {
        Some(d) => d,
        None => return None,
    };
    let ps = match properties(d) {
        Some(ps) => ps,
        None => return None,
    };
    let mut keys: Vec<String> = Vec::new();
    let ghost pv = view_members(ps@);
    proof { lemma_view_members(ps@); }
    let mut i: usize = 0;
    while i < ps.len()
        invariant
            i <= ps.len(),
            pv == view_members(ps@),
            pv.len() == ps@.len(),
            forall|k: int| 0 <= k < ps@.len() ==> #[trigger] pv[k] == (ps@[k].0@, ps@[k].1@),
            keys.deep_view() == member_keys(pv.take(i as int)),
        decreases ps.len() - i,
    {
        assert(pv.take(i + 1).drop_last() == pv.take(i as int));
        keys.push(ps[i].0.clone());
        i = i + 1;
    }
    assert(pv.take(ps.len() as int) == pv);
    let ops = ob_opinionated_defs();
    let ghost ov = view_members(ops@);
    proof { lemma_view_members(ops@); }
    let ghost base = keys.deep_view();
    let mut j: usize = 0;
    while j < ops.len()
        invariant
            j <= ops.len(),
            ov == view_members(ops@),
            ov == opinionated_defs(),
            ov.len() == ops@.len(),
            forall|k: int| 0 <= k < ops@.len() ==> #[trigger] ov[k] == (ops@[k].0@, ops@[k].1@),
            keys.deep_view() == base + opinionated_children(ov.take(j as int), path@),
        decreases ops.len() - j,
    {
        assert(ov.take(j + 1).drop_last() == ov.take(j as int));
        let (parent, key) = split_parent_path(ops[j].0.as_str());
        let ghost prev = opinionated_children(ov.take(j as int), path@);
        if parent == *path {
            keys.push(key);
            assert((base + prev).push(key@) == base + (prev + seq![key@]));
        } else {
            assert(prev + Seq::<Seq<char>>::empty() == prev);
        }
        j = j + 1;
    }
    assert(ov.take(ops.len() as int) == ov);
    Some(keys)
}

fn child_def<'a>(
    def: Option<&'a Json>,
    key: &str,
    cpath: &str,
    defs: &'a Vec<(String, Json)>,
    ops: &'a Vec<(String, Json)>,
) -> (r: Option<&'a Json>)
    requires
        view_members(ops@) == opinionated_defs(),
    ensures
        opt_view(r) == child_def_of(opt_view(def), key@, cpath@, view_members(defs@)),
{
    let via_ref: Option<&Json> = match def {
        Some(d) => match properties(d) {
            Some(ps) => match member_get(ps, key) {
                Some(p) => match ref_name(p) {
                    Some(n) => member_get(defs, n.as_str()),
                    None => None,
                },
                None => None,
            },
            None => None,
        },
        None => None,
    };
    match via_ref {
        Some(x) => Some(x),
        None => member_get(ops, cpath),
    }
}

fn validate_ob_properties_recursive(
    schema: &Json,
    current_path: &String,
    current_def: Option<&Json>,
    defs: &Vec<(String, Json)>,
) -> (r: Result<(), TemplateError>)
    ensures
        unit_result_view(r) == ob_props_check(schema@, current_path@, opt_view(current_def), view_members(defs@)),
    decreases schema@,
{
    let ms = match properties(schema) {
        Some(ms) => ms,
        None => return Ok(()),
    };
    let allowed = allowed_at(current_def, current_path);
    let ops = ob_opinionated_defs();
    let ghost mv = view_members(ms@);
    let ghost av = allowed_keys(opt_view(current_def), current_path@);
    proof { lemma_view_members(ms@); }
    let mut disallowed: Vec<String> = Vec::new();
    let mut i: usize = 0;
    while i < ms.len()
        invariant
            i <= ms.len(),
            properties_of(schema@) == Some(view_members(ms@)),
            mv == view_members(ms@),
            mv.len() == ms@.len(),
            forall|k: int| 0 <= k < ms@.len() ==> #[trigger] mv[k] == (ms@[k].0@, ms@[k].1@),
            view_members(ops@) == opinionated_defs(),
            av == allowed_keys(opt_view(current_def), current_path@),
            match allowed { Some(v) => av == Some(v.deep_view()), None => av is None },
            children_props_check(mv.take(i as int), current_path@, opt_view(current_def), view_members(defs@)) is Ok,
            disallowed.deep_view() == disallowed_keys(mv.take(i as int), av),
        decreases ms.len() - i,
    {
        assert(mv.take(i + 1).drop_last() == mv.take(i as int));
        assert(mv.take(i + 1).last() == mv[i as int]);
        let key = &ms[i].0;
        let ghost prev = disallowed_keys(mv.take(i as int), av);
        match &allowed {
            Some(a) => {
                if !contains_string(a, key) {
                    disallowed.push(key.clone());
                    assert(disallowed.deep_view() == prev + seq![key@]);
                } else {
                    assert(prev + Seq::<Seq<char>>::empty() == prev);
                }
            },
            None => {
                assert(prev + Seq::<Seq<char>>::empty() == prev);
            },
        }
        let cp = join_child(current_path, key);
        let cd = child_def(current_def, key.as_str(), cp.as_str(), defs, &ops);
        proof { lemma_member_value_decreases(schema@, ms@, i as int); }
        match validate_ob_properties_recursive(&ms[i].1, &cp, cd, defs) {
            Err(e) => {
                proof { lemma_children_check_prefix(mv, current_path@, opt_view(current_def), view_members(defs@), i + 1); }
                return Err(e);
            },
            Ok(()) => {},
        }
        i = i + 1;
    }
    assert(mv.take(ms.len() as int) == mv);
    if disallowed.len() == 0 {
        Ok(())
    } else {
        let sorted = sort_strings(disallowed);
        Err(TemplateError::DisallowedOpenBadgesProperties(
            String::from_str("The following properties are not allowed for OpenBadges 3.0 templates at path `/").concat(
                current_path.as_str(),
            ).concat("`: [").concat(join(&sorted, ", ").as_str()).concat("]"),
        ))
    }
}

proof fn lemma_children_check_prefix(
    ms: Seq<(Seq<char>, JsonView)>,
    path: Seq<char>,
    def: Option<JsonView>,
    defs: Seq<(Seq<char>, JsonView)>,
    n: int,
)
    requires
        0 <= n <= ms.len(),
        children_props_check(ms.take(n), path, def, defs) is Err,
    ensures
        children_props_check(ms, path, def, defs) == children_props_check(ms.take(n), path, def, defs),
    decreases ms.len() - n,
{
    if n < ms.len() {
        assert(ms.take(n + 1).drop_last() == ms.take(n));
        lemma_children_check_prefix(ms, path, def, defs, n + 1);
    } else {
        assert(ms.take(n) == ms);
    }
}

/// Whether a template schema only uses property names that OB 3.0 allows, with
/// opinionated fields of the declared type and format.
pub open spec fn schema_properties_check(schema: JsonView, ob: JsonView) -> Result<(), TemplateErrorView> {
    match ob_defs(ob) {
        None => Ok(()),
        Some(defs) => match ob_props_check(schema, Seq::empty(), member(defs, root_def_name()), defs) {
            Err(e) => Err(e),
            Ok(()) => opinionated_types_check(schema),
        },
    }
}

/// Validates that an OB template schema only uses property names that OB 3.0 allows,
/// following `$ref` links from `AchievementSubject`; `ob` is the OB 3.0 JSON Schema.
pub fn validate_open_badges_schema_properties(schema: &Json, ob: &Json) -> (r: Result<(), TemplateError>)
    ensures
        unit_result_view(r) == schema_properties_check(schema@, ob@),
{
    let defs = match defs_of(ob) {
        Some(d) => d,
        None => return Ok(()),
    };
    let root_def = member_get(defs, "AchievementSubject");
    let root_path = String::new();
    match validate_ob_properties_recursive(schema, &root_path, root_def, defs) {
        Err(e) => return Err(e),
        Ok(()) => {},
    }
    validate_ob_opinionated_types(schema)
}


/// The keys of a path → children map, in order.
pub open spec fn map_keys(m: Seq<(Seq<char>, Seq<Seq<char>>)>) -> Seq<Seq<char>>
    decreases m.len(),
{
    if m.len() == 0 {
        Seq::empty()
    } else {
        map_keys(m.drop_last()).push(m.last().0)
    }
}

/// The ancestors of a schema path, itself included: `a`, `a/b`, `a/b/c` for `a/b/c`.
pub open spec fn ancestors(path: Seq<char>) -> Seq<Seq<char>> {
    let segs = path_segments(path);
    Seq::new(segs.len(), |k: int| seq_join(segs.take(k + 1), "/"@))
}

/// Whether `path` or one of its ancestors was already reported missing.
pub open spec fn skipped(path: Seq<char>, nodes: Seq<Seq<char>>) -> bool {
    exists|k: int| 0 <= k < ancestors(path).len() && nodes.contains(#[trigger] ancestors(path)[k])
}

/// The findings of the required-field check so far: missing fields, fields of a wrong
/// type, and the nodes reported missing.
pub type Findings = (Seq<Seq<char>>, Seq<Seq<char>>, Seq<Seq<char>>);

pub open spec fn absent_children(st: Findings, path: Seq<char>, children: Seq<Seq<char>>) -> Findings
    decreases children.len(),
{
    if children.len() == 0 {
        st
    } else {
        let s2 = absent_children(st, path, children.drop_last());
        let c = children.last();
        (s2.0.push(full_leaf_path(path, c)), s2.1, s2.2.push(child_path(path, c)))
    }
}

/// Whether a present required leaf field is neither of type `string` nor a `const`.
pub open spec fn wrong_leaf_type(f: JsonView) -> bool {
    string_value(field(f, "type"@)) != Some("string"@) && field(f, "const"@) is None
}

pub open spec fn present_children(
    st: Findings,
    path: Seq<char>,
    children: Seq<Seq<char>>,
    props: Seq<(Seq<char>, JsonView)>,
    leaf: Seq<Seq<char>>,
) -> Findings
    decreases children.len(),
{
    if children.len() == 0 {
        st
    } else {
        let s2 = present_children(st, path, children.drop_last(), props, leaf);
        let c = children.last();
        let full = full_leaf_path(path, c);
        match member(props, c) {
            None => (s2.0.push(full), s2.1, s2.2.push(child_path(path, c))),
            Some(f) => if leaf.contains(full) && wrong_leaf_type(f) {
                (s2.0, s2.1.push(full), s2.2)
            } else {
                s2
            },
        }
    }
}

pub open spec fn path_step(
    schema: JsonView,
    m: Seq<(Seq<char>, Seq<Seq<char>>)>,
    leaf: Seq<Seq<char>>,
    st: Findings,
    path: Seq<char>,
) -> Findings {
    if skipped(path, st.2) {
        st
    } else {
        let children = sorted_text(match lookup(m, path) { Some(c) => c, None => Seq::empty() });
        match props_at_path_spec(schema, path) {
            None => if !reachable(m, path) { st } else { absent_children(st, path, children) },
            Some(props) => present_children(st, path, children, props, leaf),
        }
    }
}

pub open spec fn required_fold(
    schema: JsonView,
    m: Seq<(Seq<char>, Seq<Seq<char>>)>,
    leaf: Seq<Seq<char>>,
    paths: Seq<Seq<char>>,
) -> Findings
    decreases paths.len(),
{
    if paths.len() == 0 {
        (Seq::empty(), Seq::empty(), Seq::empty())
    } else {
        path_step(schema, m, leaf, required_fold(schema, m, leaf, paths.drop_last()), paths.last())
    }
}

pub open spec fn missing_message(fields: Seq<Seq<char>>) -> Seq<char> {
    "The following required fields must be present in the schema for OpenBadges 3.0 templates: ["@
        + seq_join(fields, ", "@) + "]"@
}

pub open spec fn wrong_type_message(fields: Seq<Seq<char>>) -> Seq<char> {
    "The following required fields must have type \"string\" or a \"const\" value: ["@ + seq_join(fields, ", "@) + "]"@
}

/// Whether all required OB 3.0 fields are present in a template schema, each required leaf
/// with type `string` or a `const`.
pub open spec fn required_properties_check(schema: JsonView, ob: JsonView) -> Result<(), TemplateErrorView> {
    let m = combined_required(ob);
    let st = required_fold(schema, m, required_leaf_paths(ob), sorted_text(map_keys(m)));
    if st.0.len() > 0 {
        Err(TemplateErrorView::MissingRequiredOpenBadgesProperties(missing_message(st.0)))
    } else if st.1.len() > 0 {
        Err(TemplateErrorView::InvalidRequiredPropertyType(wrong_type_message(st.1)))
    } else {
        Ok(())
    }
}

fn keys_of(m: &Vec<(String, Vec<String>)>) -> (r: Vec<String>)
    ensures
        r.deep_view() == map_keys(required_view(m@)),
{
    let ghost mv = required_view(m@);
    let mut r: Vec<String> = Vec::new();
    let mut i: usize = 0;
    while i < m.len()
        invariant
            i <= m.len(),
            mv == required_view(m@),
            r.deep_view() == map_keys(mv.take(i as int)),
        decreases m.len() - i,
    {
        assert(mv.take(i + 1).drop_last() == mv.take(i as int));
        assert(mv.take(i + 1).last() == mv[i as int]);
        r.push(m[i].0.clone());
        i = i + 1;
    }
    assert(mv.take(m.len() as int) == mv);
    r
}

/// Whether `path` or one of its ancestors is among `nodes`.
fn is_skipped(path: &String, nodes: &Vec<String>) -> (r: bool)
    ensures
        r == skipped(path@, nodes.deep_view()),
{
    let segs = non_empty_segments(path.as_str());
    let ghost sv = segs.deep_view();
    let ghost anc = ancestors(path@);
    let mut ancestor = String::new();
    let mut k: usize = 0;
    while k < segs.len()
        invariant
            k <= segs.len(),
            sv == segs.deep_view(),
            sv == path_segments(path@),
            anc == ancestors(path@),
            anc.len() == sv.len(),
            k > 0 ==> ancestor@ == seq_join(sv.take(k as int), "/"@),
            forall|t: int| 0 <= t < k ==> !nodes.deep_view().contains(#[trigger] anc[t]),
        decreases segs.len() - k,
    {
        assert(sv.take(k + 1).drop_last() == sv.take(k as int));
        assert(sv.take(k + 1).last() == sv[k as int]);
        if k == 0 {
            ancestor = segs[0].clone();
            assert(sv.take(1).len() == 1);
        } else {
            ancestor = ancestor.concat("/").concat(segs[k].as_str());
        }
        assert(anc[k as int] == seq_join(sv.take(k + 1), "/"@));
        assert(ancestor@ == anc[k as int]);
        if contains_string(nodes, &ancestor) {
            return true;
        }
        k = k + 1;
    }
    false
}

fn sorted_children(m: &Vec<(String, Vec<String>)>, path: &str) -> (r: Vec<String>)
    ensures
        r.deep_view() == sorted_text(match lookup(required_view(m@), path@) { Some(c) => c, None => Seq::empty() }),
{
    sort_strings(lookup_children(m, path))
}

/// Validates that all required OB 3.0 fields (specification and opinionated) are present in
/// the template schema, each required leaf with type `string` or a `const`; `ob` is the
/// OB 3.0 JSON Schema.
pub fn validate_open_badges_required_properties(schema: &Json, ob: &Json) -> (r: Result<(), TemplateError>)
    ensures
        unit_result_view(r) == required_properties_check(schema@, ob@),
{
    let combined = ob_combined_required_by_path(ob);
    let reach = ob_required_reachable_paths(&combined);
    let leaf = open_badges_required_leaf_paths(ob);
    let paths = sort_strings(keys_of(&combined));
    let ghost m = required_view(combined@);
    let ghost pv = paths.deep_view();
    let mut missing: Vec<String> = Vec::new();
    let mut wrong: Vec<String> = Vec::new();
    let mut nodes: Vec<String> = Vec::new();
    let mut i: usize = 0;
    while i < paths.len()
        invariant
            i <= paths.len(),
            m == required_view(combined@),
            m == combined_required(ob@),
            pv == paths.deep_view(),
            forall|p: Seq<char>| reach.deep_view().contains(p) <==> reachable(m, p),
            leaf.deep_view() == required_leaf_paths(ob@),
            required_fold(schema@, m, leaf.deep_view(), pv.take(i as int))
                == (missing.deep_view(), wrong.deep_view(), nodes.deep_view()),
        decreases paths.len() - i,
    {
        assert(pv.take(i + 1).drop_last() == pv.take(i as int));
        assert(pv.take(i + 1).last() == pv[i as int]);
        let path = &paths[i];
        let ghost st0 = (missing.deep_view(), wrong.deep_view(), nodes.deep_view());
        if !is_skipped(path, &nodes) {
            let children = sorted_children(&combined, path.as_str());
            let ghost chv = children.deep_view();
            match props_at_path(schema, path.as_str()) {
                None => {
                    if contains_string(&reach, path) {
                        let mut j: usize = 0;
                        while j < children.len()
                            invariant
                                j <= children.len(),
                                chv == children.deep_view(),
                                absent_children(st0, path@, chv.take(j as int))
                                    == (missing.deep_view(), wrong.deep_view(), nodes.deep_view()),
                            decreases children.len() - j,
                        {
                            assert(chv.take(j + 1).drop_last() == chv.take(j as int));
                            assert(chv.take(j + 1).last() == children@[j as int]@);
                            missing.push(full_path_of(path, &children[j]));
                            nodes.push(join_child(path, &children[j]));
                            j = j + 1;
                        }
                        assert(chv.take(children.len() as int) == chv);
                    }
                },
                Some(props) => {
                    let mut j: usize = 0;
                    while j < children.len()
                        invariant
                            j <= children.len(),
                            chv == children.deep_view(),
                            leaf.deep_view() == required_leaf_paths(ob@),
                            present_children(st0, path@, chv.take(j as int), view_members(props@), leaf.deep_view())
                                == (missing.deep_view(), wrong.deep_view(), nodes.deep_view()),
                        decreases children.len() - j,
                    {
                        assert(chv.take(j + 1).drop_last() == chv.take(j as int));
                        assert(chv.take(j + 1).last() == children@[j as int]@);
                        let full = full_path_of(path, &children[j]);
                        match member_get(props, children[j].as_str()) {
                            None => {
                                missing.push(full);
                                nodes.push(join_child(path, &children[j]));
                            },
                            Some(f) => {
                                if contains_string(&leaf, &full) {
                                    let has_string = match f.get("type") {
                                        Some(t) => match t.as_str() {
                                            Some(ts) => str_equal(ts.as_str(), "string"),
                                            None => false,
                                        },
                                        None => false,
                                    };
                                    let has_const = f.get("const").is_some();
                                    if !has_string && !has_const {
                                        wrong.push(full);
                                    }
                                }
                            },
                        }
                        j = j + 1;
                    }
                    assert(chv.take(children.len() as int) == chv);
                },
            }
        }
        i = i + 1;
    }
    assert(pv.take(paths.len() as int) == pv);
    if missing.len() > 0 {
        return Err(TemplateError::MissingRequiredOpenBadgesProperties(
            String::from_str("The following required fields must be present in the schema for OpenBadges 3.0 templates: [").concat(
                join(&missing, ", ").as_str(),
            ).concat("]"),
        ));
    }
    if wrong.len() > 0 {
        return Err(TemplateError::InvalidRequiredPropertyType(
            String::from_str("The following required fields must have type \"string\" or a \"const\" value: [").concat(
                join(&wrong, ", ").as_str(),
            ).concat("]"),
        ));
    }
    Ok(())
}


/// The segments a mutable descent follows: none for the root, else every piece between
/// slashes.
pub open spec fn raw_segments(path: Seq<char>) -> Seq<Seq<char>> {
    if path.len() == 0 { Seq::empty() } else { split_on_slash(path) }
}

/// The position of the first member with `key`, or -1.
pub open spec fn first_index(ms: Seq<(Seq<char>, JsonView)>, key: Seq<char>) -> int
    decreases ms.len(),
{
    if ms.len() == 0 {
        -1
    } else if ms[0].0 == key {
        0
    } else if first_index(ms.drop_first(), key) < 0 {
        -1
    } else {
        first_index(ms.drop_first(), key) + 1
    }
}

pub proof fn lemma_first_index(ms: Seq<(Seq<char>, JsonView)>, key: Seq<char>)
    ensures
        -1 <= first_index(ms, key) < ms.len(),
        first_index(ms, key) >= 0 ==> ms[first_index(ms, key)].0 == key && member(ms, key) == Some(ms[first_index(ms, key)].1),
        first_index(ms, key) < 0 ==> member(ms, key) is None,
        forall|j: int| 0 <= j < ms.len() && (first_index(ms, key) < 0 || j < first_index(ms, key)) ==> ms[j].0 != key,
    decreases ms.len(),
{
    if ms.len() > 0 && ms[0].0 != key {
        lemma_first_index(ms.drop_first(), key);
        assert forall|j: int| 0 <= j < ms.len() && (first_index(ms, key) < 0 || j < first_index(ms, key)) implies ms[j].0 != key by {
            if j > 0 {
                assert(ms[j] == ms.drop_first()[j - 1]);
            }
        }
    }
}

/// `ms` with `v` under `key`: in place of the first member with that key, else appended.
pub open spec fn set_member(ms: Seq<(Seq<char>, JsonView)>, key: Seq<char>, v: JsonView) -> Seq<(Seq<char>, JsonView)> {
    if first_index(ms, key) >= 0 {
        ms.update(first_index(ms, key), (key, v))
    } else {
        ms.push((key, v))
    }
}

/// `v` with the node reached along `segs` (through `properties`) replaced by `new`;
/// unchanged when the path does not lead to a node.
pub open spec fn replace_at(v: JsonView, segs: Seq<Seq<char>>, new: JsonView) -> JsonView
    decreases segs.len(),
{
    if segs.len() == 0 {
        new
    } else {
        match v {
            JsonView::Object(ms) => match member(ms, "properties"@) {
                Some(JsonView::Object(pms)) => match member(pms, segs[0]) {
                    Some(c) => JsonView::Object(set_member(ms, "properties"@, JsonView::Object(
                        set_member(pms, segs[0], replace_at(c, segs.drop_first(), new)),
                    ))),
                    None => v,
                },
                _ => v,
            },
            _ => v,
        }
    }
}

/// `arr` with a string entry for each of `keys` it lacks, when it is an array.
pub open spec fn add_if_absent(arr: JsonView, keys: Seq<Seq<char>>) -> JsonView
    decreases keys.len(),
{
    if keys.len() == 0 {
        arr
    } else {
        match add_if_absent(arr, keys.drop_last()) {
            JsonView::Array(items) => if items.contains(JsonView::Str(keys.last())) {
                JsonView::Array(items)
            } else {
                JsonView::Array(items.push(JsonView::Str(keys.last())))
            },
            other => other,
        }
    }
}

/// `node` with `keys` added to its `required` array (created empty when absent).
pub open spec fn with_required(node: JsonView, keys: Seq<Seq<char>>) -> JsonView {
    match node {
        JsonView::Object(ms) => {
            let req = match member(ms, "required"@) {
                Some(r) => r,
                None => JsonView::Array(Seq::empty()),
            };
            JsonView::Object(set_member(ms, "required"@, add_if_absent(req, keys)))
        },
        _ => node,
    }
}

/// The `children` that appear under the node's `properties`.
pub open spec fn present_required(node: JsonView, children: Seq<Seq<char>>) -> Seq<Seq<char>>
    decreases children.len(),
{
    if children.len() == 0 {
        Seq::empty()
    } else {
        let rest = present_required(node, children.drop_last());
        let present = match field(node, "properties"@) {
            Some(p) => field(p, children.last()) is Some,
            None => false,
        };
        if present { rest.push(children.last()) } else { rest }
    }
}

pub open spec fn ensure_step(m: Seq<(Seq<char>, Seq<Seq<char>>)>, schema: JsonView, path: Seq<char>) -> JsonView {
    let children = sorted_text(match lookup(m, path) { Some(c) => c, None => Seq::empty() });
    match node_at(schema, raw_segments(path)) {
        None => schema,
        Some(node) => {
            let present = present_required(node, children);
            if present.len() == 0 || !(node is Object) {
                schema
            } else {
                replace_at(schema, raw_segments(path), with_required(node, present))
            }
        },
    }
}

pub open spec fn ensure_fold(m: Seq<(Seq<char>, Seq<Seq<char>>)>, schema: JsonView, paths: Seq<Seq<char>>) -> JsonView
    decreases paths.len(),
{
    if paths.len() == 0 {
        schema
    } else {
        ensure_step(m, ensure_fold(m, schema, paths.drop_last()), paths.last())
    }
}

/// The schema with the required children of every path (specification and opinionated)
/// that the schema declares added to that level's `required` array.
pub open spec fn with_required_keys(schema: JsonView, ob: JsonView) -> JsonView {
    let m = combined_required(ob);
    ensure_fold(m, schema, sorted_text(map_keys(m)))
}

fn member_index(ms: &Vec<(String, Json)>, key: &str) -> (r: Option<usize>)
    ensures
        match r {
            Some(i) => first_index(view_members(ms@), key@) == i as int,
            None => first_index(view_members(ms@), key@) < 0,
        },
{
    let ghost mv = view_members(ms@);
    proof {
        lemma_first_index(mv, key@);
        lemma_view_members(ms@);
    }
    let mut i: usize = 0;
    while i < ms.len()
        invariant
            i <= ms.len(),
            mv == view_members(ms@),
            mv.len() == ms@.len(),
            forall|k: int| 0 <= k < ms@.len() ==> #[trigger] mv[k] == (ms@[k].0@, ms@[k].1@),
            -1 <= first_index(mv, key@) < mv.len(),
            first_index(mv, key@) >= 0 ==> mv[first_index(mv, key@)].0 == key@,
            forall|j: int| 0 <= j < mv.len() && (first_index(mv, key@) < 0 || j < first_index(mv, key@)) ==> mv[j].0 != key@,
            forall|j: int| 0 <= j < i ==> mv[j].0 != key@,
        decreases ms.len() - i,
    {
        assert(mv[i as int].0 == ms@[i as int].0@);
        if str_equal(ms[i].0.as_str(), key) {
            return Some(i);
        }
        i = i + 1;
    }
    None
}

proof fn lemma_view_members_update(ms: Seq<(String, Json)>, i: int, k: String, v: Json)
    requires
        0 <= i < ms.len(),
    ensures
        view_members(ms.update(i, (k, v))) == view_members(ms).update(i, (k@, v@)),
{
    lemma_view_members(ms);
    lemma_view_members(ms.update(i, (k, v)));
    assert(view_members(ms.update(i, (k, v))) =~= view_members(ms).update(i, (k@, v@)));
}

proof fn lemma_view_members_push(ms: Seq<(String, Json)>, k: String, v: Json)
    ensures
        view_members(ms.push((k, v))) == view_members(ms).push((k@, v@)),
{
    assert(ms.push((k, v)).drop_last() == ms);
}

/// Replaces the node reached along `segs[idx..]` by `new`.
fn replace_node(v: Json, segs: &Vec<String>, idx: usize, new: Json) -> (r: Json)
    requires
        idx <= segs.len(),
    ensures
        r@ == replace_at(v@, segs.deep_view().skip(idx as int), new@),
    decreases segs.len() - idx,
{
    let ghost sv = segs.deep_view().skip(idx as int);
    if idx == segs.len() {
        return new;
    }
    assert(sv[0] == segs@[idx as int]@);
    assert(sv.drop_first() == segs.deep_view().skip(idx + 1));
    match v {
        Json::Object(ms) => {
            let mut ms = ms;
            let ghost mv = view_members(ms@);
            proof { lemma_first_index(mv, "properties"@); lemma_view_members(ms@); }
            let pi = match member_index(&ms, "properties") {
                Some(pi) => pi,
                None => return Json::Object(ms),
            };
            match &ms[pi].1 {
                Json::Object(pms) => {
                    let ghost pmv = view_members(pms@);
                    proof {
                        lemma_first_index(pmv, sv[0]);
                        lemma_view_members(pms@);
                        assert(mv[pi as int].1 == JsonView::Object(pmv));
                    }
                    let ci = match member_index(pms, segs[idx].as_str()) {
                        Some(ci) => ci,
                        None => return Json::Object(ms),
                    };
                    let child = copy_json(&pms[ci].1);
                    let new_child = replace_node(child, segs, idx + 1, new);
                    let mut pms2: Vec<(String, Json)> = Vec::new();
                    let mut t: usize = 0;
                    while t < pms.len()
                        invariant
                            t <= pms.len(),
                            pms2@.len() == t,
                            forall|q: int| 0 <= q < t ==> pms2@[q].0@ == pms@[q].0@ && pms2@[q].1@ == pms@[q].1@,
                        decreases pms.len() - t,
                    {
                        pms2.push((pms[t].0.clone(), copy_json(&pms[t].1)));
                        t = t + 1;
                    }
                    proof {
                        lemma_view_members(pms2@);
                        assert(view_members(pms2@) =~= pmv);
                    }
                    let ck = pms2[ci].0.clone();
                    let ghost before2 = pms2@;
                    assert(ck@ == sv[0]);
                    pms2.set(ci, (ck, new_child));
                    proof { lemma_view_members_update(before2, ci as int, ck, new_child); }
                    let new_props = Json::Object(pms2);
                    assert(new_props@ == JsonView::Object(set_member(pmv, sv[0], replace_at(pmv[ci as int].1, sv.drop_first(), new@))));
                    let pk = ms[pi].0.clone();
                    let ghost before = ms@;
                    ms.set(pi, (pk, new_props));
                    proof { lemma_view_members_update(before, pi as int, pk, new_props); }
                    Json::Object(ms)
                },
                _ => Json::Object(ms),
            }
        },
        other => other,
    }
}


/// Adds a string entry for each of `keys` that the array lacks.
fn add_keys_if_absent(arr: Json, keys: &Vec<String>) -> (r: Json)
    ensures
        r@ == add_if_absent(arr@, keys.deep_view()),
{
    let ghost kv = keys.deep_view();
    match arr {
        Json::Array(items) => {
            let mut items = items;
            let mut i: usize = 0;
            while i < keys.len()
                invariant
                    i <= keys.len(),
                    kv == keys.deep_view(),
                    add_if_absent(arr@, kv.take(i as int)) == JsonView::Array(view_items(items@)),
                decreases keys.len() - i,
            {
                assert(kv.take(i + 1).drop_last() == kv.take(i as int));
                assert(kv.take(i + 1).last() == keys@[i as int]@);
                proof { lemma_view_items(items@); }
                let ghost iv = view_items(items@);
                let key = &keys[i];
                let ghost kview = key@;
                assert(kview == keys@[i as int]@);
                let mut found = false;
                let mut j: usize = 0;
                while j < items.len()
                    invariant
                        j <= items.len(),
                        kview == key@,
                        kview == keys@[i as int]@,
                        iv == view_items(items@),
                        iv.len() == items@.len(),
                        forall|q: int| 0 <= q < items@.len() ==> #[trigger] iv[q] == items@[q]@,
                        found == (exists|q: int| 0 <= q < j && iv[q] == JsonView::Str(keys@[i as int]@)),
                    decreases items.len() - j,
                {
                    assert(iv[j as int] == items@[j as int]@);
                    match &items[j] {
                        Json::Str(s) => {
                            if *s == *key {
                                found = true;
                            }
                        },
                        _ => {},
                    }
                    j = j + 1;
                }
                if !found {
                    let ghost before = items@;
                    items.push(Json::Str(key.clone()));
                    assert(items@.drop_last() == before);
                    assert(items@.last()@ == JsonView::Str(kview));
                    assert(view_items(items@) == iv.push(JsonView::Str(keys@[i as int]@)));
                } else {
                    assert(iv.contains(JsonView::Str(keys@[i as int]@)));
                }
                i = i + 1;
            }
            assert(kv.take(keys.len() as int) == kv);
            Json::Array(items)
        },
        other => {
            proof { lemma_add_if_absent_other(other@, kv); }
            other
        },
    }
}

proof fn lemma_add_if_absent_other(v: JsonView, keys: Seq<Seq<char>>)
    requires
        !(v is Array),
    ensures
        add_if_absent(v, keys) == v,
    decreases keys.len(),
{
    if keys.len() > 0 {
        lemma_add_if_absent_other(v, keys.drop_last());
    }
}

/// `node` with `keys` added to its `required` array, created empty when absent.
fn with_required_node(node: Json, keys: &Vec<String>) -> (r: Json)
    ensures
        r@ == with_required(node@, keys.deep_view()),
{
    match node {
        Json::Object(ms) => {
            let mut ms = ms;
            let ghost mv = view_members(ms@);
            proof { lemma_first_index(mv, "required"@); lemma_view_members(ms@); }
            match member_index(&ms, "required") {
                Some(i) => {
                    let req = copy_json(&ms[i].1);
                    let new_req = add_keys_if_absent(req, keys);
                    let k = ms[i].0.clone();
                    let ghost before = ms@;
                    ms.set(i, (k, new_req));
                    proof { lemma_view_members_update(before, i as int, k, new_req); }
                    Json::Object(ms)
                },
                None => {
                    let empty: Vec<Json> = Vec::new();
                    proof {
                        assert(view_items(empty@) =~= Seq::<JsonView>::empty());
                    }
                    let new_req = add_keys_if_absent(Json::Array(empty), keys);
                    let ghost before = ms@;
                    let k = String::from_str("required");
                    ms.push((k, new_req));
                    proof { lemma_view_members_push(before, k, new_req); }
                    Json::Object(ms)
                },
            }
        },
        other => other,
    }
}

/// The `children` that appear under the node's `properties`.
fn present_children_of(node: &Json, children: &Vec<String>) -> (r: Vec<String>)
    ensures
        r.deep_view() == present_required(node@, children.deep_view()),
{
    let ghost cv = children.deep_view();
    let mut r: Vec<String> = Vec::new();
    let mut i: usize = 0;
    while i < children.len()
        invariant
            i <= children.len(),
            cv == children.deep_view(),
            r.deep_view() == present_required(node@, cv.take(i as int)),
        decreases children.len() - i,
    {
        assert(cv.take(i + 1).drop_last() == cv.take(i as int));
        assert(cv.take(i + 1).last() == children@[i as int]@);
        let present = match node.get("properties") {
            Some(p) => p.get(children[i].as_str()).is_some(),
            None => false,
        };
        if present {
            r.push(children[i].clone());
        }
        i = i + 1;
    }
    assert(cv.take(children.len() as int) == cv);
    r
}

fn raw_path_segments(path: &str) -> (r: Vec<String>)
    ensures
        r.deep_view() == raw_segments(path@),
{
    let cs = chars_of(path);
    if cs.len() == 0 {
        let r: Vec<String> = Vec::new();
        assert(r.deep_view() =~= Seq::<Seq<char>>::empty());
        r
    } else {
        split_slash(path)
    }
}

/// Adds the required children of every path (specification and opinionated) that the
/// schema declares to that level's `required` array; `ob` is the OB 3.0 JSON Schema.
pub fn ensure_schema_required_keys(schema: &mut Json, ob: &Json)
    ensures
        final(schema)@ == with_required_keys(old(schema)@, ob@),
{
    let combined = ob_combined_required_by_path(ob);
    let paths = sort_strings(keys_of(&combined));
    let ghost m = required_view(combined@);
    let ghost pv = paths.deep_view();
    let ghost start = schema@;
    let mut i: usize = 0;
    while i < paths.len()
        invariant
            i <= paths.len(),
            m == required_view(combined@),
            m == combined_required(ob@),
            pv == paths.deep_view(),
            start == old(schema)@,
            schema@ == ensure_fold(m, start, pv.take(i as int)),
        decreases paths.len() - i,
    {
        assert(pv.take(i + 1).drop_last() == pv.take(i as int));
        assert(pv.take(i + 1).last() == pv[i as int]);
        let path = &paths[i];
        let children = sorted_children(&combined, path.as_str());
        let segs = raw_path_segments(path.as_str());
        let update: Option<Json> = match node_at_segments(schema, &segs) {
            None => None,
            Some(node) => {
                let present = present_children_of(node, &children);
                let is_object = match node {
                    Json::Object(_) => true,
                    _ => false,
                };
                if present.len() == 0 || !is_object {
                    None
                } else {
                    let copy = copy_json(node);
                    Some(with_required_node(copy, &present))
                }
            },
        };
        match update {
            None => {},
            Some(new_node) => {
                let mut current = Json::Null;
                std::mem::swap(&mut current, schema);
                assert(segs.deep_view().skip(0) == segs.deep_view());
                let replaced = replace_node(current, &segs, 0, new_node);
                *schema = replaced;
            },
        }
        i = i + 1;
    }
    assert(pv.take(paths.len() as int) == pv);
}

} // verus!
