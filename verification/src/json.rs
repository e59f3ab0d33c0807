use vstd::prelude::*;

verus! {

/// The library's model of a JSON document. Numbers are kept as their JSON text,
/// object members keep the order in which they were given.
#[derive(Debug, PartialEq)]
pub enum Json {
    Null,
    Bool(bool),
    Number(String),
    Str(String),
    Array(Vec<Json>),
    Object(Vec<(String, Json)>),
}

/// The mathematical value of a JSON document.
pub enum JsonView {
    Null,
    Bool(bool),
    Number(Seq<char>),
    Str(Seq<char>),
    Array(Seq<JsonView>),
    Object(Seq<(Seq<char>, JsonView)>),
}

pub open spec fn view_items(items: Seq<Json>) -> Seq<JsonView>
    decreases items,
{
    if items.len() == 0 {
        Seq::empty()
    } else {
        view_items(items.drop_last()).push(json_view(items.last()))
    }
}

pub open spec fn view_members(members: Seq<(String, Json)>) -> Seq<(Seq<char>, JsonView)>
    decreases members,
{
    if members.len() == 0 {
        Seq::empty()
    } else {
        view_members(members.drop_last()).push((members.last().0@, json_view(members.last().1)))
    }
}

pub open spec fn json_view(j: Json) -> JsonView
    decreases j,
{
    match j {
        Json::Null => JsonView::Null,
        Json::Bool(b) => JsonView::Bool(b),
        Json::Number(n) => JsonView::Number(n@),
        Json::Str(s) => JsonView::Str(s@),
        Json::Array(items) => JsonView::Array(view_items(items@)),
        Json::Object(members) => JsonView::Object(view_members(members@)),
    }
}


impl View for Json {
    type V = JsonView;

    open spec fn view(&self) -> JsonView {
        json_view(*self)
    }
}

pub proof fn lemma_view_items(items: Seq<Json>)
    ensures
        view_items(items).len() == items.len(),
        forall|i: int| 0 <= i < items.len() ==> #[trigger] view_items(items)[i] == json_view(items[i]),
    decreases items.len(),
{
    if items.len() > 0 {
        lemma_view_items(items.drop_last());
    }
}

pub proof fn lemma_view_members(members: Seq<(String, Json)>)
    ensures
        view_members(members).len() == members.len(),
        forall|i: int|
            0 <= i < members.len() ==> #[trigger] view_members(members)[i] == (
                members[i].0@,
                json_view(members[i].1),
            ),
    decreases members.len(),
{
    if members.len() > 0 {
        lemma_view_members(members.drop_last());
    }
}

/// The value stored under `key` among object members: the first member with that key.
pub open spec fn member(ms: Seq<(Seq<char>, JsonView)>, key: Seq<char>) -> Option<JsonView>
    decreases ms.len(),
{
    if ms.len() == 0 {
        None
    } else if ms[0].0 == key {
        Some(ms[0].1)
    } else {
        member(ms.drop_first(), key)
    }
}

/// `v[key]` when `v` is an object that has `key`, as `serde_json::Value::get` gives it.
pub open spec fn field(v: JsonView, key: Seq<char>) -> Option<JsonView> {
    match v {
        JsonView::Object(ms) => member(ms, key),
        _ => None,
    }
}

/// The members of `v` when it is an object.
pub open spec fn object_members(v: Option<JsonView>) -> Option<Seq<(Seq<char>, JsonView)>> {
    match v {
        Some(JsonView::Object(ms)) => Some(ms),
        _ => None,
    }
}

/// The text of `v` when it is a string.
pub open spec fn string_value(v: Option<JsonView>) -> Option<Seq<char>> {
    match v {
        Some(JsonView::Str(s)) => Some(s),
        _ => None,
    }
}

/// The view of an optional reference to a JSON value.
pub open spec fn opt_view(r: Option<&Json>) -> Option<JsonView> {
    match r {
        Some(x) => Some(json_view(*x)),
        None => None,
    }
}

/// Whether two strings hold the same characters.
pub fn str_equal(a: &str, b: &str) -> (r: bool)
    ensures
        r == (a@ == b@),
{
    let sa = String::from_str(a);
    let sb = String::from_str(b);
    sa == sb
}

pub proof fn lemma_member_index(ms: Seq<(Seq<char>, JsonView)>, key: Seq<char>, i: int)
    requires
        0 <= i < ms.len(),
        ms[i].0 == key,
        forall|k: int| 0 <= k < i ==> ms[k].0 != key,
    ensures
        member(ms, key) == Some(ms[i].1),
    decreases i,
{
    if i > 0 {
        lemma_member_index(ms.drop_first(), key, i - 1);
    }
}

pub proof fn lemma_member_absent(ms: Seq<(Seq<char>, JsonView)>, key: Seq<char>)
    requires
        forall|k: int| 0 <= k < ms.len() ==> ms[k].0 != key,
    ensures
        member(ms, key) == None::<JsonView>,
    decreases ms.len(),
{
    if ms.len() > 0 {
        lemma_member_absent(ms.drop_first(), key);
    }
}

/// Looks a key up among object members.
pub fn member_get<'a>(members: &'a Vec<(String, Json)>, key: &str) -> (r: Option<&'a Json>)
    ensures
        opt_view(r) == member(view_members(members@), key@),
{
    proof {
        lemma_view_members(members@);
    }
    let mut i: usize = 0;
    while i < members.len()
        invariant
            i <= members.len(),
            view_members(members@).len() == members.len(),
            forall|k: int| 0 <= k < members.len() ==> #[trigger] view_members(members@)[k] == (
                members@[k].0@,
                json_view(members@[k].1),
            ),
            forall|k: int| 0 <= k < i ==> view_members(members@)[k].0 != key@,
        decreases members.len() - i,
    {
        if str_equal(members[i].0.as_str(), key) {
            proof {
                lemma_member_index(view_members(members@), key@, i as int);
            }
            return Some(&members[i].1);
        }
        i = i + 1;
    }
    proof {
        lemma_member_absent(view_members(members@), key@);
    }
    None
}

impl Json {
    /// `self[key]` when `self` is an object holding `key`.
    pub fn get<'a>(&'a self, key: &str) -> (r: Option<&'a Json>)
        ensures
            opt_view(r) == field(self@, key@),
    {
        match self {
            Json::Object(members) => member_get(members, key),
            _ => None,
        }
    }

    /// The members of `self` when it is an object.
    pub fn as_object(&self) -> (r: Option<&Vec<(String, Json)>>)
        ensures
            r is Some <==> self@ is Object,
            r matches Some(ms) ==> self@ == JsonView::Object(view_members(ms@)),
    {
        match self {
            Json::Object(members) => Some(members),
            _ => None,
        }
    }

    /// The text of `self` when it is a string.
    pub fn as_str(&self) -> (r: Option<&String>)
        ensures
            r is Some <==> self@ is Str,
            r matches Some(s) ==> self@ == JsonView::Str(s@),
    {
        match self {
            Json::Str(s) => Some(s),
            _ => None,
        }
    }
}

impl Clone for Json {
    fn clone(&self) -> (r: Self)
        ensures
            r@ == self@,
    {
        copy_json(self)
    }
}

/// A copy of `j` with the same value.
pub fn copy_json(j: &Json) -> (r: Json)
    ensures
        r@ == j@,
    decreases j,
{
    match j {
        Json::Null => Json::Null,
        Json::Bool(b) => Json::Bool(*b),
        Json::Number(n) => Json::Number(n.clone()),
        Json::Str(s) => Json::Str(s.clone()),
        Json::Array(items) => {
            let mut out: Vec<Json> = Vec::new();
            let mut i: usize = 0;
            while i < items.len()
                invariant
                    *j == Json::Array(*items),
                    i <= items.len(),
                    out.len() == i,
                    view_items(out@) == view_items(items@.take(i as int)),
                decreases items.len() - i,
            {
                proof {
                    assert(decreases_to!(*j => j->Array_0));
                    assert(decreases_to!(*items => items[i as int]));
                }
                let c = copy_json(&items[i]);
                proof {
                    assert(items@.take(i + 1).drop_last() == items@.take(i as int));
                    assert(out@.push(c).drop_last() == out@);
                }
                out.push(c);
                i = i + 1;
            }
            assert(items@.take(items.len() as int) == items@);
            Json::Array(out)
        },
        Json::Object(members) => {
            let mut out: Vec<(String, Json)> = Vec::new();
            let mut i: usize = 0;
            while i < members.len()
                invariant
                    *j == Json::Object(*members),
                    i <= members.len(),
                    out.len() == i,
                    view_members(out@) == view_members(members@.take(i as int)),
                decreases members.len() - i,
            {
                proof {
                    assert(decreases_to!(*j => j->Object_0));
                    assert(decreases_to!(*members => members[i as int]));
                    assert(decreases_to!(members[i as int] => members[i as int].1));
                }
                let c = copy_json(&members[i].1);
                let k = members[i].0.clone();
                proof {
                    assert(members@.take(i + 1).drop_last() == members@.take(i as int));
                    assert(out@.push((k, c)).drop_last() == out@);
                }
                out.push((k, c));
                i = i + 1;
            }
            assert(members@.take(members.len() as int) == members@);
            Json::Object(out)
        },
    }
}


/// The lower-case hexadecimal digit for `n < 16`.
pub open spec fn hex_digit(n: u32) -> char {
    if n == 0 { '0' } else if n == 1 { '1' } else if n == 2 { '2' } else if n == 3 { '3' }
    else if n == 4 { '4' } else if n == 5 { '5' } else if n == 6 { '6' } else if n == 7 { '7' }
    else if n == 8 { '8' } else if n == 9 { '9' } else if n == 10 { 'a' } else if n == 11 { 'b' }
    else if n == 12 { 'c' } else if n == 13 { 'd' } else if n == 14 { 'e' } else { 'f' }
}

/// How one character is written inside a JSON string literal.
pub open spec fn escaped_char(c: char) -> Seq<char> {
    if c == '"' {
        seq!['\\', '"']
    } else if c == '\\' {
        seq!['\\', '\\']
    } else if (c as u32) < 0x20 {
        seq!['\\', 'u', '0', '0', hex_digit((c as u32) / 16), hex_digit((c as u32) % 16)]
    } else {
        seq![c]
    }
}

/// The characters of `s` as they are written inside a JSON string literal.
pub open spec fn escaped(s: Seq<char>) -> Seq<char>
    decreases s.len(),
{
    if s.len() == 0 {
        Seq::empty()
    } else {
        escaped(s.drop_last()) + escaped_char(s.last())
    }
}

/// The JSON string literal for `s`.
pub open spec fn quoted(s: Seq<char>) -> Seq<char> {
    seq!['"'] + escaped(s) + seq!['"']
}

/// The texts of array items, separated by commas.
pub open spec fn items_text(items: Seq<JsonView>) -> Seq<char>
    decreases items,
{
    if items.len() == 0 {
        Seq::empty()
    } else if items.len() == 1 {
        json_text(items[0])
    } else {
        items_text(items.drop_last()) + seq![','] + json_text(items.last())
    }
}

/// The texts of object members (`"key":value`), separated by commas.
pub open spec fn members_text(ms: Seq<(Seq<char>, JsonView)>) -> Seq<char>
    decreases ms,
{
    if ms.len() == 0 {
        Seq::empty()
    } else if ms.len() == 1 {
        quoted(ms[0].0) + seq![':'] + json_text(ms[0].1)
    } else {
        members_text(ms.drop_last()) + seq![','] + quoted(ms.last().0) + seq![':'] + json_text(
            ms.last().1,
        )
    }
}

/// The compact JSON text of a value; numbers keep their own text.
pub open spec fn json_text(v: JsonView) -> Seq<char>
    decreases v,
{
    match v {
        JsonView::Null => seq!['n', 'u', 'l', 'l'],
        JsonView::Bool(b) => if b {
            seq!['t', 'r', 'u', 'e']
        } else {
            seq!['f', 'a', 'l', 's', 'e']
        },
        JsonView::Number(n) => n,
        JsonView::Str(s) => quoted(s),
        JsonView::Array(items) => seq!['['] + items_text(items) + seq![']'],
        JsonView::Object(ms) => seq!['{'] + members_text(ms) + seq!['}'],
    }
}

fn hex_char(n: u32) -> (c: char)
    requires
        n < 16,
    ensures
        c == hex_digit(n),
{
    if n == 0 { '0' } else if n == 1 { '1' } else if n == 2 { '2' } else if n == 3 { '3' }
    else if n == 4 { '4' } else if n == 5 { '5' } else if n == 6 { '6' } else if n == 7 { '7' }
    else if n == 8 { '8' } else if n == 9 { '9' } else if n == 10 { 'a' } else if n == 11 { 'b' }
    else if n == 12 { 'c' } else if n == 13 { 'd' } else if n == 14 { 'e' } else { 'f' }
}

/// Appends the JSON string literal for `s` to `out`.
fn push_quoted(out: &mut String, s: &str)
    ensures
        final(out)@ == old(out)@ + quoted(s@),
{
    let cs = crate::text::chars_of(s);
    out.push('"');
    let ghost start = out@;
    let mut i: usize = 0;
    while i < cs.len()
        invariant
            i <= cs.len(),
            cs@ == s@,
            out@ == start + escaped(cs@.take(i as int)),
        decreases cs.len() - i,
    {
        let c = cs[i];
        assert(cs@.take(i + 1).drop_last() == cs@.take(i as int));
        let u = c as u32;
        if c == '"' {
            out.push('\\');
            out.push('"');
        } else if c == '\\' {
            out.push('\\');
            out.push('\\');
        } else if u < 0x20 {
            out.push('\\');
            out.push('u');
            out.push('0');
            out.push('0');
            out.push(hex_char(u / 16));
            out.push(hex_char(u % 16));
        } else {
            out.push(c);
        }
        assert(out@ == start + escaped(cs@.take(i + 1)));
        i = i + 1;
    }
    assert(cs@.take(cs.len() as int) == s@);
    out.push('"');
}

/// Appends the compact JSON text of `j` to `out`.
fn push_text(out: &mut String, j: &Json)
    ensures
        final(out)@ == old(out)@ + json_text(j@),
    decreases j,
{
    match j {
        Json::Null => {
            out.append("null");
            proof { reveal_strlit("null"); }
        },
        Json::Bool(b) => {
            if *b {
                out.append("true");
                proof { reveal_strlit("true"); }
            } else {
                out.append("false");
                proof { reveal_strlit("false"); }
            }
        },
        Json::Number(n) => {
            out.append(n.as_str());
        },
        Json::Str(s) => {
            push_quoted(out, s.as_str());
        },
        Json::Array(items) => {
            out.push('[');
            let ghost start = out@;
            proof { lemma_view_items(items@); }
            let mut i: usize = 0;
            while i < items.len()
                invariant
                    *j == Json::Array(*items),
                    i <= items.len(),
                    out@ == start + items_text(view_items(items@.take(i as int))),
                decreases items.len() - i,
            {
                proof {
                    assert(decreases_to!(*j => j->Array_0));
                    assert(decreases_to!(*items => items[i as int]));
                    assert(items@.take(i + 1).drop_last() == items@.take(i as int));
                    lemma_view_items(items@.take(i + 1));
                    lemma_view_items(items@.take(i as int));
                }
                let ghost vt = view_items(items@.take(i as int));
                let ghost before = out@;
                if i > 0 {
                    out.push(',');
                }
                push_text(out, &items[i]);
                proof {
                    let nt = view_items(items@.take(i + 1));
                    assert(nt == vt.push(json_view(items@[i as int])));
                    assert(nt.drop_last() == vt);
                    if i == 0 {
                        assert(vt.len() == 0);
                        assert(items_text(nt) == json_text(nt[0]));
                    } else {
                        assert(items_text(nt) == items_text(vt) + seq![','] + json_text(nt.last()));
                    }
                }
                i = i + 1;
            }
            assert(items@.take(items.len() as int) == items@);
            out.push(']');
        },
        Json::Object(members) => {
            out.push('{');
            let ghost start = out@;
            let mut i: usize = 0;
            while i < members.len()
                invariant
                    *j == Json::Object(*members),
                    i <= members.len(),
                    out@ == start + members_text(view_members(members@.take(i as int))),
                decreases members.len() - i,
            {
                proof {
                    assert(decreases_to!(*j => j->Object_0));
                    assert(decreases_to!(*members => members[i as int]));
                    assert(decreases_to!(members[i as int] => members[i as int].1));
                    assert(members@.take(i + 1).drop_last() == members@.take(i as int));
                    lemma_view_members(members@.take(i + 1));
                    lemma_view_members(members@.take(i as int));
                }
                let ghost vt = view_members(members@.take(i as int));
                if i > 0 {
                    out.push(',');
                }
                push_quoted(out, members[i].0.as_str());
                out.push(':');
                push_text(out, &members[i].1);
                proof {
                    let nt = view_members(members@.take(i + 1));
                    assert(nt == vt.push((members@[i as int].0@, json_view(members@[i as int].1))));
                    assert(nt.drop_last() == vt);
                    if i == 0 {
                        assert(vt.len() == 0);
                        assert(members_text(nt) == quoted(nt[0].0) + seq![':'] + json_text(nt[0].1));
                    } else {
                        assert(members_text(nt) == members_text(vt) + seq![','] + quoted(nt.last().0) + seq![':'] + json_text(nt.last().1));
                    }
                }
                i = i + 1;
            }
            assert(members@.take(members.len() as int) == members@);
            out.push('}');
        },
    }
}

/// The compact JSON text of `j`.
pub fn to_text(j: &Json) -> (r: String)
    ensures
        r@ == json_text(j@),
{
    let mut out = String::new();
    push_text(&mut out, j);
    out
}


pub proof fn lemma_member_decreases(ms: Seq<(Seq<char>, JsonView)>, key: Seq<char>)
    ensures
        member(ms, key) matches Some(x) ==> decreases_to!(ms => x),
    decreases ms.len(),
{
    if ms.len() > 0 {
        if ms[0].0 == key {
            assert(decreases_to!(ms => ms[0]));
            assert(decreases_to!(ms[0] => ms[0].1));
        } else {
            lemma_member_decreases(ms.drop_first(), key);
            assert(decreases_to!(ms => ms.drop_first()));
        }
    }
}

/// The members of `v`'s `properties` object, if it has one.
pub open spec fn properties_of(v: JsonView) -> Option<Seq<(Seq<char>, JsonView)>> {
    object_members(field(v, "properties"@))
}

pub proof fn lemma_properties_decrease(v: JsonView)
    ensures
        properties_of(v) matches Some(ms) ==> decreases_to!(v => ms),
{
    if let JsonView::Object(ms0) = v {
        lemma_member_decreases(ms0, "properties"@);
        if let Some(JsonView::Object(ms)) = member(ms0, "properties"@) {
            assert(decreases_to!(v => ms0));
            assert(decreases_to!(JsonView::Object(ms) => ms));
        }
    }
}

/// Whether no node, following `properties` down from `v`, declares `"type": "array"`.
pub open spec fn array_free(v: JsonView) -> bool
    decreases v,
{
    &&& string_value(field(v, "type"@)) != Some("array"@)
    &&& match properties_of(v) {
        Some(ms) => {
            proof { lemma_properties_decrease(v); }
            members_array_free(ms)
        },
        None => true,
    }
}

pub open spec fn members_array_free(ms: Seq<(Seq<char>, JsonView)>) -> bool
    decreases ms,
{
    if ms.len() == 0 {
        true
    } else {
        members_array_free(ms.drop_last()) && array_free(ms.last().1)
    }
}


/// The members of `j`'s `properties` object, if it has one.
pub fn properties(j: &Json) -> (r: Option<&Vec<(String, Json)>>)
    ensures
        match r {
            Some(ms) => properties_of(j@) == Some(view_members(ms@)),
            None => properties_of(j@) is None,
        },
{
    match j.get("properties") {
        Some(p) => p.as_object(),
        None => None,
    }
}

pub proof fn lemma_member_value_decreases(v: JsonView, ms: Seq<(String, Json)>, i: int)
    requires
        properties_of(v) == Some(view_members(ms)),
        0 <= i < ms.len(),
    ensures
        decreases_to!(v => json_view(ms[i].1)),
{
    lemma_properties_decrease(v);
    lemma_view_members(ms);
    let vm = view_members(ms);
    assert(decreases_to!(vm => vm[i]));
    assert(decreases_to!(vm[i] => vm[i].1));
}


/// Whether two JSON values are equal.
pub fn json_equal(a: &Json, b: &Json) -> (r: bool)
    ensures
        r == (a@ == b@),
    decreases a@,
{
    match (a, b) {
        (Json::Null, Json::Null) => true,
        (Json::Bool(x), Json::Bool(y)) => *x == *y,
        (Json::Number(x), Json::Number(y)) => *x == *y,
        (Json::Str(x), Json::Str(y)) => *x == *y,
        (Json::Array(xs), Json::Array(ys)) => {
            proof {
                lemma_view_items(xs@);
                lemma_view_items(ys@);
            }
            if xs.len() != ys.len() {
                assert(view_items(xs@).len() != view_items(ys@).len());
                return false;
            }
            let mut i: usize = 0;
            while i < xs.len()
                invariant
                    *a == Json::Array(*xs),
                    *b == Json::Array(*ys),
                    i <= xs.len(),
                    xs.len() == ys.len(),
                    view_items(xs@).len() == xs.len(),
                    view_items(ys@).len() == ys.len(),
                    forall|k: int| 0 <= k < xs@.len() ==> #[trigger] view_items(xs@)[k] == json_view(xs@[k]),
                    forall|k: int| 0 <= k < ys@.len() ==> #[trigger] view_items(ys@)[k] == json_view(ys@[k]),
                    forall|k: int| 0 <= k < i ==> view_items(xs@)[k] == view_items(ys@)[k],
                decreases xs.len() - i,
            {
                proof {
                    assert(a@ == JsonView::Array(view_items(xs@)));
                    assert(b@ == JsonView::Array(view_items(ys@)));
                    let av = a@;
                    assert(decreases_to!(av => av->Array_0));
                    assert(decreases_to!(view_items(xs@) => view_items(xs@)[i as int]));
                }
                if !json_equal(&xs[i], &ys[i]) {
                    assert(view_items(xs@)[i as int] != view_items(ys@)[i as int]);
                    return false;
                }
                i = i + 1;
            }
            assert(view_items(xs@) =~= view_items(ys@));
            true
        },
        (Json::Object(xs), Json::Object(ys)) => {
            proof {
                lemma_view_members(xs@);
                lemma_view_members(ys@);
            }
            if xs.len() != ys.len() {
                assert(view_members(xs@).len() != view_members(ys@).len());
                return false;
            }
            let mut i: usize = 0;
            while i < xs.len()
                invariant
                    *a == Json::Object(*xs),
                    *b == Json::Object(*ys),
                    i <= xs.len(),
                    xs.len() == ys.len(),
                    view_members(xs@).len() == xs.len(),
                    view_members(ys@).len() == ys.len(),
                    forall|k: int| 0 <= k < xs@.len() ==> #[trigger] view_members(xs@)[k] == (xs@[k].0@, json_view(xs@[k].1)),
                    forall|k: int| 0 <= k < ys@.len() ==> #[trigger] view_members(ys@)[k] == (ys@[k].0@, json_view(ys@[k].1)),
                    forall|k: int| 0 <= k < i ==> view_members(xs@)[k] == view_members(ys@)[k],
                decreases xs.len() - i,
            {
                proof {
                    assert(a@ == JsonView::Object(view_members(xs@)));
                    assert(b@ == JsonView::Object(view_members(ys@)));
                    let av = a@;
                    assert(decreases_to!(av => av->Object_0));
                    assert(decreases_to!(view_members(xs@) => view_members(xs@)[i as int]));
                    assert(decreases_to!(view_members(xs@)[i as int] => view_members(xs@)[i as int].1));
                }
                if xs[i].0 != ys[i].0 {
                    assert(view_members(xs@)[i as int] != view_members(ys@)[i as int]);
                    return false;
                }
                if !json_equal(&xs[i].1, &ys[i].1) {
                    assert(view_members(xs@)[i as int] != view_members(ys@)[i as int]);
                    return false;
                }
                i = i + 1;
            }
            assert(view_members(xs@) =~= view_members(ys@));
            true
        },
        _ => false,
    }
}

/// Whether two optional JSON values are equal.
pub fn opt_json_equal(a: Option<&Json>, b: Option<&Json>) -> (r: bool)
    ensures
        r == (opt_view(a) == opt_view(b)),
{
    match (a, b) {
        (None, None) => true,
        (Some(x), Some(y)) => json_equal(x, y),
        _ => false,
    }
}

} // verus!
