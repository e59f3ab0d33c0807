use vstd::prelude::*;

verus! {

/// The Unicode `White_Space` property, the notion of whitespace that `str::trim` uses.
pub open spec fn is_white_space(c: char) -> bool {
    let u = c as u32;
    ||| 0x9 <= u <= 0xd
    ||| u == 0x20
    ||| u == 0x85
    ||| u == 0xa0
    ||| u == 0x1680
    ||| 0x2000 <= u <= 0x200a
    ||| u == 0x2028
    ||| u == 0x2029
    ||| u == 0x202f
    ||| u == 0x205f
    ||| u == 0x3000
}

/// `s` without its leading whitespace.
pub open spec fn trim_start_chars(s: Seq<char>) -> Seq<char>
    decreases s.len(),
{
    if s.len() > 0 && is_white_space(s[0]) {
        trim_start_chars(s.drop_first())
    } else {
        s
    }
}

/// `s` without its trailing whitespace.
pub open spec fn trim_end_chars(s: Seq<char>) -> Seq<char>
    decreases s.len(),
{
    if s.len() > 0 && is_white_space(s.last()) {
        trim_end_chars(s.drop_last())
    } else {
        s
    }
}

/// `s` without leading and trailing whitespace.
pub open spec fn trimmed(s: Seq<char>) -> Seq<char> {
    trim_end_chars(trim_start_chars(s))
}

proof fn lemma_trim_start_shape(x: Seq<char>)
    ensures
        trim_start_chars(x).len() == 0 || !is_white_space(trim_start_chars(x)[0]),
    decreases x.len(),
{
    if x.len() > 0 && is_white_space(x[0]) {
        lemma_trim_start_shape(x.drop_first());
    }
}

proof fn lemma_trim_end_shape(x: Seq<char>)
    ensures
        trim_end_chars(x).len() == 0 || !is_white_space(trim_end_chars(x).last()),
        x.len() > 0 && !is_white_space(x[0]) ==> trim_end_chars(x).len() > 0 && trim_end_chars(x)[0] == x[0],
    decreases x.len(),
{
    if x.len() > 0 && is_white_space(x.last()) {
        lemma_trim_end_shape(x.drop_last());
        if x.len() > 0 && !is_white_space(x[0]) {
            assert(x.len() >= 2);
            assert(x.drop_last()[0] == x[0]);
        }
    }
}

/// Trimming a trimmed text changes nothing.
pub proof fn lemma_trimmed_idempotent(s: Seq<char>)
    ensures
        trimmed(trimmed(s)) == trimmed(s),
{
    let t = trim_start_chars(s);
    lemma_trim_start_shape(s);
    lemma_trim_end_shape(t);
    let u = trim_end_chars(t);
    assert(trim_start_chars(u) == u);
    lemma_trim_end_shape(u);
    if u.len() > 0 {
        assert(!is_white_space(u.last()));
    }
    assert(trim_end_chars(u) == u);
}

/// Whether `c` has the Unicode `White_Space` property.
fn white_space(c: char) -> (r: bool)
    ensures
        r == is_white_space(c),
{
    let u = c as u32;
    (0x9 <= u && u <= 0xd) || u == 0x20 || u == 0x85 || u == 0xa0 || u == 0x1680 || (0x2000 <= u && u <= 0x200a)
        || u == 0x2028 || u == 0x2029 || u == 0x202f || u == 0x205f || u == 0x3000
}

/// Appending one character to a `String` (std's `String::push`).
pub assume_specification[ String::push ](s: &mut String, ch: char)
    ensures
        final(s)@ == old(s)@.push(ch),
;

/// The trimmed copy of `s`.
pub fn trim_string(s: &str) -> (r: String)
    ensures
        r@ == trimmed(s@),
{
    let cs = chars_of(s);
    let n = cs.len();
    let mut lo: usize = 0;
    assert(cs@.subrange(0, n as int) == s@);
    while lo < n && white_space(cs[lo])
        invariant
            n == cs@.len(),
            cs@ == s@,
            lo <= n,
            trim_start_chars(s@) == trim_start_chars(cs@.subrange(lo as int, n as int)),
        decreases n - lo,
    {
        assert(cs@.subrange(lo as int, n as int).drop_first() == cs@.subrange(lo + 1, n as int));
        lo = lo + 1;
    }
    let ghost t = cs@.subrange(lo as int, n as int);
    assert(trim_start_chars(s@) == t);
    let mut hi: usize = n;
    while hi > lo && white_space(cs[hi - 1])
        invariant
            n == cs@.len(),
            lo <= hi <= n,
            t == cs@.subrange(lo as int, n as int),
            trim_end_chars(t) == trim_end_chars(cs@.subrange(lo as int, hi as int)),
        decreases hi - lo,
    {
        assert(cs@.subrange(lo as int, hi as int).drop_last() == cs@.subrange(lo as int, hi - 1));
        hi = hi - 1;
    }
    assert(trim_end_chars(t) == cs@.subrange(lo as int, hi as int));
    let mut r = String::new();
    let mut i: usize = lo;
    while i < hi
        invariant
            lo <= i <= hi <= n,
            n == cs@.len(),
            r@ == cs@.subrange(lo as int, i as int),
        decreases hi - i,
    {
        r.push(cs[i]);
        assert(cs@.subrange(lo as int, i + 1) == cs@.subrange(lo as int, i as int).push(cs@[i as int]));
        i = i + 1;
    }
    r
}

/// The characters of `s`.
pub fn chars_of(s: &str) -> (r: Vec<char>)
    ensures
        r@ == s@,
{
    let n = s.unicode_len();
    let mut r: Vec<char> = Vec::new();
    let mut i: usize = 0;
    while i < n
        invariant
            n == s@.len(),
            i <= n,
            r@ == s@.subrange(0, i as int),
        decreases n - i,
    {
        let c = s.get_char(i);
        r.push(c);
        i = i + 1;
    }
    assert(r@ == s@);
    r
}

/// A `String` holding the characters of `cs`.
pub fn string_from_chars(cs: &Vec<char>) -> (r: String)
    ensures
        r@ == cs@,
{
    let mut r = String::new();
    let mut i: usize = 0;
    while i < cs.len()
        invariant
            i <= cs.len(),
            r@ == cs@.subrange(0, i as int),
        decreases cs.len() - i,
    {
        r.push(cs[i]);
        i = i + 1;
    }
    assert(r@ == cs@);
    r
}

/// Whether a sequence of strings holds `s`.
pub fn contains_string(v: &Vec<String>, s: &String) -> (r: bool)
    ensures
        r == v.deep_view().contains(s@),
{
    let mut i: usize = 0;
    while i < v.len()
        invariant
            i <= v.len(),
            forall|k: int| 0 <= k < i ==> v.deep_view()[k] != s@,
        decreases v.len() - i,
    {
        if v[i] == *s {
            assert(v.deep_view()[i as int] == s@);
            return true;
        }
        i = i + 1;
    }
    false
}

/// The strings of `list` joined by `sep`.
pub open spec fn seq_join(list: Seq<Seq<char>>, sep: Seq<char>) -> Seq<char>
    decreases list.len(),
{
    if list.len() == 0 {
        Seq::empty()
    } else if list.len() == 1 {
        list[0]
    } else {
        seq_join(list.drop_last(), sep) + sep + list.last()
    }
}

/// Joins `list` with `sep` between neighbouring entries.
pub fn join(list: &Vec<String>, sep: &str) -> (r: String)
    ensures
        r@ == seq_join(list.deep_view(), sep@),
{
    let mut r = String::new();
    let ghost dv = list.deep_view();
    let mut i: usize = 0;
    while i < list.len()
        invariant
            i <= list.len(),
            dv == list.deep_view(),
            r@ == seq_join(dv.take(i as int), sep@),
        decreases list.len() - i,
    {
        assert(dv.take(i + 1).drop_last() == dv.take(i as int));
        if i != 0 {
            r.append(sep);
        }
        r.append(list[i].as_str());
        i = i + 1;
    }
    assert(dv.take(list.len() as int) == dv);
    r
}

/// Lexicographic order on character sequences by code point, which is the order
/// `String`'s `Ord` gives (UTF-8 byte order is code point order).
pub open spec fn chars_le(a: Seq<char>, b: Seq<char>) -> bool
    decreases a.len(),
{
    if a.len() == 0 {
        true
    } else if b.len() == 0 {
        false
    } else if (a[0] as int) < (b[0] as int) {
        true
    } else if (a[0] as int) > (b[0] as int) {
        false
    } else {
        chars_le(a.drop_first(), b.drop_first())
    }
}

/// Whether `s` is in ascending order by `chars_le`.
pub open spec fn sorted_strings(s: Seq<Seq<char>>) -> bool {
    forall|i: int, j: int| 0 <= i < j < s.len() ==> chars_le(#[trigger] s[i], #[trigger] s[j])
}


pub proof fn lemma_chars_le_reflexive(a: Seq<char>)
    ensures
        chars_le(a, a),
    decreases a.len(),
{
    if a.len() > 0 {
        lemma_chars_le_reflexive(a.drop_first());
    }
}

pub proof fn lemma_chars_le_total(a: Seq<char>, b: Seq<char>)
    ensures
        chars_le(a, b) || chars_le(b, a),
    decreases a.len(),
{
    if a.len() > 0 && b.len() > 0 && a[0] as int == b[0] as int {
        lemma_chars_le_total(a.drop_first(), b.drop_first());
    }
}

pub proof fn lemma_chars_le_transitive(a: Seq<char>, b: Seq<char>, c: Seq<char>)
    requires
        chars_le(a, b),
        chars_le(b, c),
    ensures
        chars_le(a, c),
    decreases a.len(),
{
    if a.len() > 0 && b.len() > 0 && c.len() > 0 {
        if a[0] as int == b[0] as int && b[0] as int == c[0] as int {
            lemma_chars_le_transitive(a.drop_first(), b.drop_first(), c.drop_first());
        }
    }
}

pub proof fn lemma_chars_le_antisymmetric(a: Seq<char>, b: Seq<char>)
    requires
        chars_le(a, b),
        chars_le(b, a),
    ensures
        a == b,
    decreases a.len(),
{
    if a.len() > 0 && b.len() > 0 {
        lemma_chars_le_antisymmetric(a.drop_first(), b.drop_first());
        assert(a == seq![a[0]] + a.drop_first());
        assert(b == seq![b[0]] + b.drop_first());
        assert((a[0] as int) == (b[0] as int));
        assert(a[0] == b[0]);
    }
}

/// The order of `String`'s `Ord` as a relation.
pub open spec fn text_order() -> spec_fn(Seq<char>, Seq<char>) -> bool {
    |a: Seq<char>, b: Seq<char>| chars_le(a, b)
}

pub proof fn lemma_text_order_total()
    ensures
        vstd::relations::total_ordering(text_order()),
{
    assert forall|x: Seq<char>| #[trigger] text_order()(x, x) by {
        lemma_chars_le_reflexive(x);
    }
    assert forall|x: Seq<char>, y: Seq<char>| #[trigger] text_order()(x, y) && #[trigger] text_order()(y, x) implies x == y by {
        lemma_chars_le_antisymmetric(x, y);
    }
    assert forall|x: Seq<char>, y: Seq<char>, z: Seq<char>| #[trigger] text_order()(x, y) && #[trigger] text_order()(y, z) implies text_order()(x, z) by {
        lemma_chars_le_transitive(x, y, z);
    }
    assert forall|x: Seq<char>, y: Seq<char>| #[trigger] text_order()(x, y) || #[trigger] text_order()(y, x) by {
        lemma_chars_le_total(x, y);
    }
}

/// `s` in ascending order.
pub open spec fn sorted_text(s: Seq<Seq<char>>) -> Seq<Seq<char>> {
    s.sort_by(text_order())
}

/// Compares two strings in the order of `String`'s `Ord`.
pub fn string_le(a: &String, b: &String) -> (r: bool)
    ensures
        r == chars_le(a@, b@),
{
    let ca = chars_of(a.as_str());
    let cb = chars_of(b.as_str());
    let mut i: usize = 0;
    assert(a@.skip(0) == a@);
    assert(b@.skip(0) == b@);
    while i < ca.len()
        invariant
            ca@ == a@,
            cb@ == b@,
            i <= ca.len(),
            i <= cb.len(),
            chars_le(a@, b@) == chars_le(a@.skip(i as int), b@.skip(i as int)),
        decreases ca.len() - i,
    {
        if i >= cb.len() {
            return false;
        }
        assert(a@.skip(i as int).drop_first() == a@.skip(i + 1));
        assert(b@.skip(i as int).drop_first() == b@.skip(i + 1));
        let x = ca[i];
        let y = cb[i];
        if x < y {
            return true;
        }
        if x > y {
            return false;
        }
        i = i + 1;
    }
    true
}

/// Sorts strings in ascending order (the order of `String`'s `Ord`).
pub fn sort_strings(v: Vec<String>) -> (r: Vec<String>)
    ensures
        r.deep_view() == sorted_text(v.deep_view()),
{
    let r = insertion_sort(v);
    proof {
        lemma_text_order_total();
        v.deep_view().lemma_sort_by_ensures(text_order());
        assert(vstd::relations::sorted_by(r.deep_view(), text_order())) by {
            assert forall|i: int, j: int| 0 <= i < j < r.deep_view().len() implies #[trigger] text_order()(r.deep_view()[i], r.deep_view()[j]) by {
                assert(chars_le(r.deep_view()[i], r.deep_view()[j]));
            }
        }
        vstd::seq_lib::lemma_sorted_unique(r.deep_view(), sorted_text(v.deep_view()), text_order());
    }
    r
}

fn insertion_sort(v: Vec<String>) -> (r: Vec<String>)
    ensures
        r.deep_view().to_multiset() == v.deep_view().to_multiset(),
        sorted_strings(r.deep_view()),
        r.len() == v.len(),
{
    broadcast use vstd::seq_lib::group_to_multiset_ensures;
    let mut r: Vec<String> = Vec::new();
    let mut i: usize = 0;
    while i < v.len()
        invariant
            i <= v.len(),
            r.len() == i,
            r.deep_view().to_multiset() == v.deep_view().take(i as int).to_multiset(),
            sorted_strings(r.deep_view()),
        decreases v.len() - i,
    {
        let x = v[i].clone();
        // find insertion point: first position whose element is greater than x
        let mut j: usize = 0;
        while j < r.len() && string_le(&r[j], &x)
            invariant
                j <= r.len(),
                forall|k: int| 0 <= k < j ==> chars_le(#[trigger] r.deep_view()[k], x@),
            decreases r.len() - j,
        {
            j = j + 1;
        }
        let ghost old_r = r.deep_view();
        proof {
            if j < r.len() {
                lemma_chars_le_total(r.deep_view()[j as int], x@);
            }
        }
        r.insert(j, x);
        proof {
            let nr = r.deep_view();
            assert(nr == old_r.insert(j as int, x@));
            assert forall|a: int, b: int| 0 <= a < b < nr.len() implies chars_le(#[trigger] nr[a], #[trigger] nr[b]) by {
                if b < j {
                } else if a < j && b == j {
                } else if a < j && b > j {
                    assert(nr[b] == old_r[b - 1]);
                    if j < old_r.len() {
                        assert(chars_le(x@, old_r[j as int]));
                        lemma_chars_le_transitive(nr[a], x@, old_r[j as int]);
                        if b - 1 > j {
                            lemma_chars_le_transitive(nr[a], old_r[j as int], old_r[b - 1]);
                        }
                    }
                } else if a == j {
                    assert(nr[b] == old_r[b - 1]);
                    if b - 1 > j {
                        lemma_chars_le_transitive(x@, old_r[j as int], old_r[b - 1]);
                    }
                } else {
                    assert(nr[a] == old_r[a - 1]);
                    assert(nr[b] == old_r[b - 1]);
                }
            }
            broadcast use vstd::seq_lib::group_seq_properties;
            assert(v.deep_view().take(i + 1) == v.deep_view().take(i as int).push(x@));
            assert(old_r.insert(j as int, x@).to_multiset() == old_r.to_multiset().insert(x@)) by {
                vstd::seq_lib::lemma_multiset_commutative(old_r.take(j as int), old_r.skip(j as int));
                assert(old_r == old_r.take(j as int) + old_r.skip(j as int));
                assert(old_r.insert(j as int, x@) == old_r.take(j as int).push(x@) + old_r.skip(j as int));
                vstd::seq_lib::lemma_multiset_commutative(old_r.take(j as int).push(x@), old_r.skip(j as int));
            }
        }
        i = i + 1;
    }
    assert(v.deep_view().take(v.len() as int) == v.deep_view());
    r
}


/// The entries of `s` that occur among `among`, in order.
pub open spec fn entries_in(s: Seq<Seq<char>>, among: Seq<Seq<char>>) -> Seq<Seq<char>>
    decreases s.len(),
{
    if s.len() == 0 {
        s
    } else if among.contains(s.last()) {
        entries_in(s.drop_last(), among).push(s.last())
    } else {
        entries_in(s.drop_last(), among)
    }
}

/// The entries of `s` that do not occur among `among`, in order.
pub open spec fn entries_not_in(s: Seq<Seq<char>>, among: Seq<Seq<char>>) -> Seq<Seq<char>>
    decreases s.len(),
{
    if s.len() == 0 {
        s
    } else if among.contains(s.last()) {
        entries_not_in(s.drop_last(), among)
    } else {
        entries_not_in(s.drop_last(), among).push(s.last())
    }
}

/// The entries of `v` that occur among `among` (`keep`) or that do not (`!keep`), in order.
pub fn filter_by_membership(v: &Vec<String>, among: &Vec<String>, keep: bool) -> (r: Vec<String>)
    ensures
        keep ==> r.deep_view() == entries_in(v.deep_view(), among.deep_view()),
        !keep ==> r.deep_view() == entries_not_in(v.deep_view(), among.deep_view()),
{
    let ghost dv = v.deep_view();
    let mut out: Vec<String> = Vec::new();
    let mut i: usize = 0;
    while i < v.len()
        invariant
            i <= v.len(),
            dv == v.deep_view(),
            keep ==> out.deep_view() == entries_in(dv.take(i as int), among.deep_view()),
            !keep ==> out.deep_view() == entries_not_in(dv.take(i as int), among.deep_view()),
        decreases v.len() - i,
    {
        assert(dv.take(i + 1).drop_last() == dv.take(i as int));
        if contains_string(among, &v[i]) == keep {
            out.push(v[i].clone());
        }
        i = i + 1;
    }
    assert(dv.take(v.len() as int) == dv);
    out
}

/// A copy of an optional string.
pub fn copy_opt_string(o: &Option<String>) -> (r: Option<String>)
    ensures
        r == *o,
{
    match o {
        Some(s) => Some(s.clone()),
        None => None,
    }
}

} // verus!
