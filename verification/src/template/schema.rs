use vstd::prelude::*;
use crate::json::{
    Json, JsonView, array_free, json_text, lemma_member_value_decreases, lemma_properties_decrease,
    lemma_view_members, members_array_free, properties, properties_of, string_value, field,
    to_text, view_members,
};
use crate::template::error::{TemplateError, TemplateErrorView, unit_result_view};
use crate::template::types::{AttributeMap, PropertyAttribute, entry_keys, lemma_entry_keys};
use crate::text::{contains_string, join, seq_join, sort_strings, sorted_text, trim_string, trimmed};

verus! {

/// Whether `jsonschema::validator_for` builds a validator for the schema written as
/// `schema_text`.
pub uninterp spec fn schema_accepted(schema_text: Seq<char>) -> bool;

/// Reads `schema_text` as a `serde_json::Value` and calls `jsonschema::validator_for` on it,
/// giving the text of the error when no validator can be built. Which text that is can
/// depend on the order in which the validator visits unresolved references, so only
/// whether there is one is stated.
#[verifier::external_body]
fn jsonschema_rejection(schema_text: &str) -> (r: Option<String>)
    ensures
        r is None <==> schema_accepted(schema_text@),
{
    let value: serde_json::Value = match serde_json::from_str(schema_text) {
        Ok(v) => v,
        Err(e) => return Some(e.to_string()),
    };
    jsonschema::validator_for(&value).err().map(|e| e.to_string())
}

/// Whether a schema is a valid JSON Schema; a rejected one is refused as invalid, with the
/// validator's own message.
pub open spec fn schema_check(schema: JsonView) -> Result<(), TemplateErrorView> {
    if schema_accepted(json_text(schema)) {
        Ok(())
    } else {
        Err(TemplateErrorView::SchemaRejected)
    }
}

pub fn validate_json_schema(schema: &Json) -> (r: Result<(), TemplateError>)
    ensures
        schema_accepted(json_text(schema@)) ==> r is Ok,
        !schema_accepted(json_text(schema@)) ==> r matches Err(TemplateError::InvalidSchema(_)),
{
    let text = to_text(schema);
    match jsonschema_rejection(text.as_str()) {
        None => Ok(()),
        Some(m) => Err(TemplateError::InvalidSchema(m)),
    }
}

pub open spec fn array_type_message() -> Seq<char> {
    "Array types are not supported in template schemas. Define only object and scalar fields."@
}

/// Whether a schema is free of `"type": "array"` nodes.
pub open spec fn array_check(schema: JsonView) -> Result<(), TemplateErrorView> {
    if array_free(schema) {
        Ok(())
    } else {
        Err(TemplateErrorView::InvalidSchema(array_type_message()))
    }
}

/// Validates that no field in the schema, at any nesting level, has `"type": "array"`.
pub fn validate_schema_no_array_types(schema: &Json) -> (r: Result<(), TemplateError>)
    ensures
        unit_result_view(r) == array_check(schema@),
{
    if no_array_types(schema) {
        Ok(())
    } else {
        Err(TemplateError::InvalidSchema(String::from_str(
            "Array types are not supported in template schemas. Define only object and scalar fields.",
        )))
    }
}

fn no_array_types(schema: &Json) -> (r: bool)
    ensures
        r == array_free(schema@),
    decreases schema@,
{
    match schema.get("type") {
        Some(t) => match t.as_str() {
            Some(s) => {
                if crate::json::str_equal(s.as_str(), "array") {
                    return false;
                }
            },
            None => {},
        },
        None => {},
    }
    match properties(schema) {
        None => true,
        Some(ms) => {
            let mut i: usize = 0;
            while i < ms.len()
                invariant
                    i <= ms.len(),
                    properties_of(schema@) == Some(view_members(ms@)),
                    string_value(field(schema@, "type"@)) != Some("array"@),
                    members_array_free(view_members(ms@.take(i as int))),
                decreases ms.len() - i,
            {
                proof {
                    lemma_member_value_decreases(schema@, ms@, i as int);
                    assert(ms@.take(i + 1).drop_last() == ms@.take(i as int));
                    lemma_view_members(ms@.take(i + 1));
                }
                let ghost pre = view_members(ms@.take(i as int));
                let ghost nxt = view_members(ms@.take(i + 1));
                proof {
                    assert(nxt == pre.push((ms@[i as int].0@, ms@[i as int].1@)));
                    assert(nxt.drop_last() == pre);
                }
                if !no_array_types(&ms[i].1) {
                    proof {
                        lemma_view_members(ms@);
                        lemma_members_array_free_prefix(view_members(ms@), i as int);
                    }
                    return false;
                }
                i = i + 1;
            }
            assert(ms@.take(ms.len() as int) == ms@);
            true
        },
    }
}

proof fn lemma_members_array_free_prefix(ms: Seq<(Seq<char>, JsonView)>, i: int)
    requires
        0 <= i < ms.len(),
        !array_free(ms[i].1),
    ensures
        !members_array_free(ms),
    decreases ms.len(),
{
    if i < ms.len() - 1 {
        lemma_members_array_free_prefix(ms.drop_last(), i);
    }
}


/// A key segment of a JSON Pointer (RFC 6901): `~` written `~0`, `/` written `~1`.
pub open spec fn escaped_segment(k: Seq<char>) -> Seq<char>
    decreases k.len(),
{
    if k.len() == 0 {
        Seq::empty()
    } else {
        escaped_segment(k.drop_last()) + (if k.last() == '~' {
            seq!['~', '0']
        } else if k.last() == '/' {
            seq!['~', '1']
        } else {
            seq![k.last()]
        })
    }
}

/// Whether a schema node has a non-empty `properties` object.
pub open spec fn has_sub_properties(v: JsonView) -> bool {
    properties_of(v) matches Some(ms) && ms.len() > 0
}

/// The JSON Pointer paths, under `prefix`, of the leaf fields of a schema node: a property
/// with non-empty sub-properties contributes its leaves, any other property itself.
pub open spec fn leaf_paths(v: JsonView, prefix: Seq<char>) -> Seq<Seq<char>>
    decreases v,
{
    match properties_of(v) {
        Some(ms) => {
            proof { lemma_properties_decrease(v); }
            members_leaf_paths(ms, prefix)
        },
        None => Seq::empty(),
    }
}

pub open spec fn members_leaf_paths(ms: Seq<(Seq<char>, JsonView)>, prefix: Seq<char>) -> Seq<Seq<char>>
    decreases ms,
{
    if ms.len() == 0 {
        Seq::empty()
    } else {
        let path = prefix + seq!['/'] + escaped_segment(ms.last().0);
        members_leaf_paths(ms.drop_last(), prefix) + (if has_sub_properties(ms.last().1) {
            leaf_paths(ms.last().1, path)
        } else {
            seq![path]
        })
    }
}

fn escape_segment(k: &str) -> (r: String)
    ensures
        r@ == escaped_segment(k@),
{
    let cs = crate::text::chars_of(k);
    let mut r = String::new();
    let mut i: usize = 0;
    while i < cs.len()
        invariant
            i <= cs.len(),
            cs@ == k@,
            r@ == escaped_segment(cs@.take(i as int)),
        decreases cs.len() - i,
    {
        assert(cs@.take(i + 1).drop_last() == cs@.take(i as int));
        if cs[i] == '~' {
            r.push('~');
            r.push('0');
        } else if cs[i] == '/' {
            r.push('~');
            r.push('1');
        } else {
            r.push(cs[i]);
        }
        i = i + 1;
    }
    assert(cs@.take(cs.len() as int) == k@);
    r
}

fn has_sub_props(v: &Json) -> (r: bool)
    ensures
        r == has_sub_properties(v@),
{
    match properties(v) {
        Some(ms) => {
            proof { lemma_view_members(ms@); }
            ms.len() > 0
        },
        None => false,
    }
}

fn collect_leaf_paths_with_prefix(schema: &Json, prefix: &String, paths: &mut Vec<String>)
    ensures
        final(paths).deep_view() == old(paths).deep_view() + leaf_paths(schema@, prefix@),
    decreases schema@,
{
    match properties(schema) {
        None => {
            assert(old(paths).deep_view() + Seq::<Seq<char>>::empty() == old(paths).deep_view());
        },
        Some(ms) => {
            let ghost start = paths.deep_view();
            let mut i: usize = 0;
            while i < ms.len()
                invariant
                    i <= ms.len(),
                    properties_of(schema@) == Some(view_members(ms@)),
                    paths.deep_view() == start + members_leaf_paths(view_members(ms@.take(i as int)), prefix@),
                decreases ms.len() - i,
            {
                proof {
                    lemma_member_value_decreases(schema@, ms@, i as int);
                    assert(ms@.take(i + 1).drop_last() == ms@.take(i as int));
                }
                let ghost pre = view_members(ms@.take(i as int));
                let ghost nxt = view_members(ms@.take(i + 1));
                proof {
                    assert(nxt == pre.push((ms@[i as int].0@, ms@[i as int].1@)));
                    assert(nxt.drop_last() == pre);
                }
                let seg = escape_segment(ms[i].0.as_str());
                let path = prefix.clone().concat("/").concat(seg.as_str());
                proof {
                    reveal_strlit("/");
                    assert(path@ == prefix@ + seq!['/'] + escaped_segment(ms@[i as int].0@));
                }
                if has_sub_props(&ms[i].1) {
                    collect_leaf_paths_with_prefix(&ms[i].1, &path, paths);
                } else {
                    paths.push(path);
                }
                proof {
                    let tail = if has_sub_properties(ms@[i as int].1@) {
                        leaf_paths(ms@[i as int].1@, path@)
                    } else {
                        seq![path@]
                    };
                    assert(members_leaf_paths(nxt, prefix@) == members_leaf_paths(pre, prefix@) + tail);
                    assert(paths.deep_view() == start + members_leaf_paths(pre, prefix@) + tail);
                }
                i = i + 1;
            }
            assert(ms@.take(ms.len() as int) == ms@);
        },
    }
}

/// The JSON Pointer paths of all leaf fields of a schema.
pub fn collect_leaf_paths(schema: &Json) -> (r: Vec<String>)
    ensures
        r.deep_view() == leaf_paths(schema@, Seq::empty()),
{
    let mut paths: Vec<String> = Vec::new();
    let prefix = String::new();
    collect_leaf_paths_with_prefix(schema, &prefix, &mut paths);
    assert(Seq::<Seq<char>>::empty() + leaf_paths(schema@, Seq::empty()) == leaf_paths(schema@, Seq::empty()));
    paths
}

/// The view of an optional schema.
pub open spec fn opt_schema_view(s: Option<Json>) -> Option<JsonView> {
    match s {
        Some(j) => Some(j@),
        None => None,
    }
}

/// The leaf paths of an optional schema (none without a schema).
pub open spec fn schema_leaf_paths(s: Option<JsonView>) -> Seq<Seq<char>> {
    match s {
        Some(v) => leaf_paths(v, Seq::empty()),
        None => Seq::empty(),
    }
}

/// The keys that are not among `paths`, in order.
pub open spec fn keys_outside(keys: Seq<Seq<char>>, paths: Seq<Seq<char>>) -> Seq<Seq<char>>
    decreases keys.len(),
{
    if keys.len() == 0 {
        keys
    } else if paths.contains(keys.last()) {
        keys_outside(keys.drop_last(), paths)
    } else {
        keys_outside(keys.drop_last(), paths).push(keys.last())
    }
}

/// Whether every attribute key names a leaf field of the schema.
pub open spec fn attributes_check(schema: Option<JsonView>, keys: Seq<Seq<char>>) -> Result<(), TemplateErrorView> {
    let invalid = keys_outside(keys, schema_leaf_paths(schema));
    if invalid.len() == 0 {
        Ok(())
    } else {
        Err(TemplateErrorView::InvalidSchemaPropertiesAttributes(
            "The following keys do not match any field in schema.properties: ["@ + seq_join(
                sorted_text(invalid),
                ", "@,
            ) + "]"@,
        ))
    }
}

pub fn validate_schema_properties_attributes(schema: &Option<Json>, attributes: &AttributeMap) -> (r: Result<(), TemplateError>)
    ensures
        unit_result_view(r) == attributes_check(opt_schema_view(*schema), attributes.keys_seq()),
{
    let leaf = match schema {
        Some(s) => collect_leaf_paths(s),
        None => Vec::new(),
    };
    let ghost keys = attributes.keys_seq();
    proof { lemma_entry_keys(attributes.entries_seq()); }
    let mut invalid: Vec<String> = Vec::new();
    let mut i: usize = 0;
    while i < attributes.len()
        invariant
            i <= attributes.entries_seq().len(),
            keys == attributes.keys_seq(),
            keys.len() == attributes.entries_seq().len(),
            forall|k: int| 0 <= k < keys.len() ==> #[trigger] keys[k] == attributes.entries_seq()[k].0,
            leaf.deep_view() == schema_leaf_paths(opt_schema_view(*schema)),
            invalid.deep_view() == keys_outside(keys.take(i as int), leaf.deep_view()),
        decreases attributes.entries_seq().len() - i,
    {
        assert(keys.take(i + 1).drop_last() == keys.take(i as int));
        let k = attributes.key_at(i);
        if !contains_string(&leaf, k) {
            invalid.push(k.clone());
        }
        i = i + 1;
    }
    assert(keys.take(keys.len() as int) == keys);
    if invalid.len() == 0 {
        Ok(())
    } else {
        let sorted = sort_strings(invalid);
        Err(TemplateError::InvalidSchemaPropertiesAttributes(
            String::from_str("The following keys do not match any field in schema.properties: [").concat(
                join(&sorted, ", ").as_str(),
            ).concat("]"),
        ))
    }
}


/// The entries with trimmed keys.
pub open spec fn trimmed_entries(es: Seq<(Seq<char>, PropertyAttribute)>) -> Seq<(Seq<char>, PropertyAttribute)>
    decreases es.len(),
{
    if es.len() == 0 {
        es
    } else {
        trimmed_entries(es.drop_last()).push((trimmed(es.last().0), es.last().1))
    }
}

/// The first trimmed key, in entry order, that an earlier entry's trimmed key equals.
pub open spec fn first_trim_collision(es: Seq<(Seq<char>, PropertyAttribute)>) -> Option<Seq<char>>
    decreases es.len(),
{
    if es.len() == 0 {
        None
    } else if first_trim_collision(es.drop_last()) is Some {
        first_trim_collision(es.drop_last())
    } else if entry_keys(trimmed_entries(es.drop_last())).contains(trimmed(es.last().0)) {
        Some(trimmed(es.last().0))
    } else {
        None
    }
}

proof fn lemma_trimmed_entries_len(es: Seq<(Seq<char>, PropertyAttribute)>)
    ensures
        trimmed_entries(es).len() == es.len(),
        forall|i: int| 0 <= i < es.len() ==> #[trigger] trimmed_entries(es)[i] == (trimmed(es[i].0), es[i].1),
    decreases es.len(),
{
    if es.len() > 0 {
        lemma_trimmed_entries_len(es.drop_last());
    }
}

proof fn lemma_collision_prefix(es: Seq<(Seq<char>, PropertyAttribute)>, n: int)
    requires
        0 <= n <= es.len(),
        first_trim_collision(es.take(n)) is Some,
    ensures
        first_trim_collision(es) == first_trim_collision(es.take(n)),
    decreases es.len() - n,
{
    if n < es.len() {
        assert(es.take(n + 1).drop_last() == es.take(n));
        lemma_collision_prefix(es, n + 1);
    } else {
        assert(es.take(n) == es);
    }
}

/// Trims each key of `attributes`; refuses keys that coincide once trimmed.
pub fn trim_and_deduplicate_attribute_keys(attributes: AttributeMap) -> (r: Result<AttributeMap, TemplateError>)
    ensures
        match first_trim_collision(attributes.entries_seq()) {
            Some(k) => r matches Err(e) && e@ == TemplateErrorView::DuplicateSchemaPropertiesAttributeKey(k),
            None => r matches Ok(m) && m.entries_seq() == trimmed_entries(attributes.entries_seq()),
        },
{
    let ghost es = attributes.entries_seq();
    let mut result = AttributeMap::new();
    let mut i: usize = 0;
    while i < attributes.len()
        invariant
            i <= es.len(),
            es == attributes.entries_seq(),
            first_trim_collision(es.take(i as int)) is None,
            result.entries_seq() == trimmed_entries(es.take(i as int)),
        decreases es.len() - i,
    {
        assert(es.take(i + 1).drop_last() == es.take(i as int));
        let trimmed_key = trim_string(attributes.key_at(i).as_str());
        let attr = attributes.attr_at(i);
        proof {
            lemma_entry_keys(result.entries_seq());
        }
        match result.find(trimmed_key.as_str()) {
            Some(j) => {
                proof {
                    assert(entry_keys(trimmed_entries(es.take(i as int)))[j as int] == trimmed_key@);
                    assert(first_trim_collision(es.take(i + 1)) == Some(trimmed_key@));
                    lemma_collision_prefix(es, i + 1);
                }
                return Err(TemplateError::DuplicateSchemaPropertiesAttributeKey(trimmed_key));
            },
            None => {
                proof {
                    assert(!entry_keys(trimmed_entries(es.take(i as int))).contains(trimmed_key@));
                }
                result.insert(trimmed_key, attr);
            },
        }
        i = i + 1;
    }
    assert(es.take(es.len() as int) == es);
    Ok(result)
}

/// The `non_removable` flag a key keeps: the one of the existing attribute under that key,
/// else `false`.
pub open spec fn kept_non_removable(existing: Option<Map<Seq<char>, PropertyAttribute>>, key: Seq<char>) -> bool {
    match existing {
        Some(m) => m.contains_key(key) && m[key].non_removable,
        None => false,
    }
}

/// The map view of optional attributes.
pub open spec fn opt_attributes_map(a: Option<AttributeMap>) -> Option<Map<Seq<char>, PropertyAttribute>> {
    match a {
        Some(m) => Some(m.as_map()),
        None => None,
    }
}

/// Gives every new attribute the `non_removable` flag of the existing attribute under the
/// same key, or `false` for a key not tracked before.
pub fn enforce_non_removable_flag(new_attrs: AttributeMap, existing_attrs: &Option<AttributeMap>) -> (r: AttributeMap)
    ensures
        r.entries_seq().len() == new_attrs.entries_seq().len(),
        forall|i: int| 0 <= i < r.entries_seq().len() ==> {
            &&& (#[trigger] r.entries_seq()[i]).0 == new_attrs.entries_seq()[i].0
            &&& r.entries_seq()[i].1.selectively_disclosable == new_attrs.entries_seq()[i].1.selectively_disclosable
            &&& r.entries_seq()[i].1.non_removable == kept_non_removable(
                opt_attributes_map(*existing_attrs),
                new_attrs.entries_seq()[i].0,
            )
        },
{
    let mut new_attrs = new_attrs;
    let ghost orig = new_attrs.entries_seq();
    let mut i: usize = 0;
    while i < new_attrs.len()
        invariant
            i <= orig.len(),
            new_attrs.entries_seq().len() == orig.len(),
            forall|k: int| 0 <= k < orig.len() ==> (#[trigger] new_attrs.entries_seq()[k]).0 == orig[k].0
                && new_attrs.entries_seq()[k].1.selectively_disclosable == orig[k].1.selectively_disclosable,
            forall|k: int| 0 <= k < i ==> (#[trigger] new_attrs.entries_seq()[k]).1.non_removable == kept_non_removable(
                opt_attributes_map(*existing_attrs),
                orig[k].0,
            ),
            forall|k: int| i <= k < orig.len() ==> #[trigger] new_attrs.entries_seq()[k] == orig[k],
        decreases orig.len() - i,
    {
        let flag = match existing_attrs {
            Some(existing) => match existing.get(new_attrs.key_at(i).as_str()) {
                Some(a) => a.non_removable,
                None => false,
            },
            None => false,
        };
        let a = new_attrs.attr_at(i);
        new_attrs.set_attr_at(i, PropertyAttribute { selectively_disclosable: a.selectively_disclosable, non_removable: flag });
        i = i + 1;
    }
    new_attrs
}

} // verus!
