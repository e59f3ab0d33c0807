use vstd::prelude::*;
use crate::template::error::{TemplateError, TemplateErrorView, unit_result_view};
use crate::template::types::{DataModel, Expiration, Status};
use crate::text::{contains_string, join, seq_join, trim_string, trimmed};

verus! {

pub open spec fn vc_type() -> Seq<char> {
    "VerifiableCredential"@
}

pub open spec fn obc_type() -> Seq<char> {
    "OpenBadgeCredential"@
}

pub open spec fn ac_type() -> Seq<char> {
    "AchievementCredential"@
}

/// The entries that are not blank (whitespace only), in order and untrimmed.
pub open spec fn drop_blank(s: Seq<Seq<char>>) -> Seq<Seq<char>>
    decreases s.len(),
{
    if s.len() == 0 {
        s
    } else if trimmed(s.last()).len() == 0 {
        drop_blank(s.drop_last())
    } else {
        drop_blank(s.drop_last()).push(s.last())
    }
}

/// The entries without repetitions, each kept where it first occurs.
pub open spec fn dedup(s: Seq<Seq<char>>) -> Seq<Seq<char>>
    decreases s.len(),
{
    if s.len() == 0 {
        s
    } else if dedup(s.drop_last()).contains(s.last()) {
        dedup(s.drop_last())
    } else {
        dedup(s.drop_last()).push(s.last())
    }
}

/// The entries other than `x`, in order.
pub open spec fn without(s: Seq<Seq<char>>, x: Seq<char>) -> Seq<Seq<char>>
    decreases s.len(),
{
    if s.len() == 0 {
        s
    } else if s.last() == x {
        without(s.drop_last(), x)
    } else {
        without(s.drop_last(), x).push(s.last())
    }
}

/// The entries that are not one of the OpenBadges types, in order.
pub open spec fn ob_extras(s: Seq<Seq<char>>) -> Seq<Seq<char>>
    decreases s.len(),
{
    if s.len() == 0 {
        s
    } else if s.last() == vc_type() || s.last() == obc_type() || s.last() == ac_type() {
        ob_extras(s.drop_last())
    } else {
        ob_extras(s.drop_last()).push(s.last())
    }
}

/// The entries, each trimmed.
pub open spec fn trim_all(s: Seq<Seq<char>>) -> Seq<Seq<char>>
    decreases s.len(),
{
    if s.len() == 0 {
        s
    } else {
        trim_all(s.drop_last()).push(trimmed(s.last()))
    }
}

/// The non-empty entries, in order.
pub open spec fn drop_empty(s: Seq<Seq<char>>) -> Seq<Seq<char>>
    decreases s.len(),
{
    if s.len() == 0 {
        s
    } else if s.last().len() == 0 {
        drop_empty(s.drop_last())
    } else {
        drop_empty(s.drop_last()).push(s.last())
    }
}

/// The `type` of a non-OpenBadges template: `VerifiableCredential` first, then the other
/// distinct entries in first-seen order.
pub open spec fn standard_type(filtered: Seq<Seq<char>>) -> Seq<Seq<char>> {
    if filtered.len() == 0 {
        seq![vc_type()]
    } else {
        seq![vc_type()] + without(dedup(filtered), vc_type())
    }
}

pub open spec fn both_badge_types_message() -> Seq<char> {
    "OpenBadges type cannot include both `OpenBadgeCredential` and `AchievementCredential`"@
}

pub open spec fn extra_types_message(extras: Seq<Seq<char>>) -> Seq<char> {
    "OpenBadges type includes disallowed extra entries: ["@ + seq_join(extras, ", "@) + "]"@
}

/// The `type` of an OpenBadges 3.0 template, or why it is refused: `VerifiableCredential`
/// followed by the one badge type named, `OpenBadgeCredential` when none is.
pub open spec fn open_badges_type(filtered: Seq<Seq<char>>) -> Result<Seq<Seq<char>>, TemplateErrorView> {
    if filtered.len() == 0 || (filtered.len() == 1 && filtered[0] == vc_type()) {
        Ok(seq![vc_type(), obc_type()])
    } else if filtered.contains(obc_type()) && filtered.contains(ac_type()) {
        Err(TemplateErrorView::InvalidType(both_badge_types_message()))
    } else if ob_extras(filtered).len() > 0 {
        Err(TemplateErrorView::InvalidType(extra_types_message(ob_extras(filtered))))
    } else if filtered.contains(ac_type()) {
        Ok(seq![vc_type(), ac_type()])
    } else {
        Ok(seq![vc_type(), obc_type()])
    }
}

/// The normalized `type` of a template of data model `dm`, or why it is refused.
pub open spec fn normalized_type(input: Seq<Seq<char>>, dm: DataModel) -> Result<Seq<Seq<char>>, TemplateErrorView> {
    if dm == DataModel::OpenBadges3_0 {
        open_badges_type(drop_blank(input))
    } else {
        Ok(standard_type(drop_blank(input)))
    }
}

/// Normalized tags: trimmed, empty ones dropped, repetitions dropped; `None` when none remain.
pub open spec fn normalized_tags(tags: Option<Seq<Seq<char>>>) -> Option<Seq<Seq<char>>> {
    match tags {
        None => None,
        Some(t) => {
            let n = dedup(drop_empty(trim_all(t)));
            if n.len() == 0 { None } else { Some(n) }
        },
    }
}

/// The view of a result that carries a list of strings.
pub open spec fn strings_result_view(r: Result<Vec<String>, TemplateError>) -> Result<Seq<Seq<char>>, TemplateErrorView> {
    match r {
        Ok(v) => Ok(v.deep_view()),
        Err(e) => Err(e@),
    }
}

fn literal(s: &str) -> (r: String)
    ensures
        r@ == s@,
{
    String::from_str(s)
}

fn drop_blank_entries(input: Vec<String>) -> (r: Vec<String>)
    ensures
        r.deep_view() == drop_blank(input.deep_view()),
{
    let ghost iv = input.deep_view();
    let mut r: Vec<String> = Vec::new();
    let mut i: usize = 0;
    while i < input.len()
        invariant
            i <= input.len(),
            iv == input.deep_view(),
            r.deep_view() == drop_blank(iv.take(i as int)),
        decreases input.len() - i,
    {
        assert(iv.take(i + 1).drop_last() == iv.take(i as int));
        let t = trim_string(input[i].as_str());
        if t.unicode_len() != 0 {
            r.push(input[i].clone());
            assert(r.deep_view() == drop_blank(iv.take(i as int)).push(iv[i as int]));
        }
        i = i + 1;
    }
    assert(iv.take(input.len() as int) == iv);
    r
}

fn dedup_entries(input: &Vec<String>) -> (r: Vec<String>)
    ensures
        r.deep_view() == dedup(input.deep_view()),
{
    let ghost iv = input.deep_view();
    let mut r: Vec<String> = Vec::new();
    let mut i: usize = 0;
    while i < input.len()
        invariant
            i <= input.len(),
            iv == input.deep_view(),
            r.deep_view() == dedup(iv.take(i as int)),
        decreases input.len() - i,
    {
        assert(iv.take(i + 1).drop_last() == iv.take(i as int));
        if !contains_string(&r, &input[i]) {
            r.push(input[i].clone());
            assert(r.deep_view() == dedup(iv.take(i as int)).push(iv[i as int]));
        }
        i = i + 1;
    }
    assert(iv.take(input.len() as int) == iv);
    r
}

fn normalize_standard_type(filtered: Vec<String>) -> (r: Vec<String>)
    ensures
        r.deep_view() == standard_type(filtered.deep_view()),
{
    let vc = literal("VerifiableCredential");
    if filtered.len() == 0 {
        let mut r: Vec<String> = Vec::new();
        r.push(vc);
        assert(r.deep_view() == seq![vc_type()]);
        return r;
    }
    let deduped = dedup_entries(&filtered);
    let ghost dv = deduped.deep_view();
    let mut r: Vec<String> = Vec::new();
    r.push(vc.clone());
    let mut i: usize = 0;
    while i < deduped.len()
        invariant
            i <= deduped.len(),
            dv == deduped.deep_view(),
            vc@ == vc_type(),
            r.deep_view() == seq![vc_type()] + without(dv.take(i as int), vc_type()),
        decreases deduped.len() - i,
    {
        assert(dv.take(i + 1).drop_last() == dv.take(i as int));
        let ghost prev = without(dv.take(i as int), vc_type());
        if deduped[i] != vc {
            r.push(deduped[i].clone());
            assert((seq![vc_type()] + prev).push(dv[i as int]) == seq![vc_type()] + prev.push(dv[i as int]));
        }
        i = i + 1;
    }
    assert(dv.take(deduped.len() as int) == dv);
    r
}

fn normalize_open_badges_type(filtered: Vec<String>) -> (r: Result<Vec<String>, TemplateError>)
    ensures
        strings_result_view(r) == open_badges_type(filtered.deep_view()),
{
    let vc = literal("VerifiableCredential");
    let obc = literal("OpenBadgeCredential");
    let ac = literal("AchievementCredential");
    let ghost fv = filtered.deep_view();
    if filtered.len() == 0 || (filtered.len() == 1 && filtered[0] == vc) {
        let mut r: Vec<String> = Vec::new();
        r.push(vc);
        r.push(obc);
        assert(r.deep_view() == seq![vc_type(), obc_type()]);
        return Ok(r);
    }
    let has_obc = contains_string(&filtered, &obc);
    let has_ac = contains_string(&filtered, &ac);
    if has_obc && has_ac {
        return Err(TemplateError::InvalidType(literal(
            "OpenBadges type cannot include both `OpenBadgeCredential` and `AchievementCredential`",
        )));
    }
    let mut extras: Vec<String> = Vec::new();
    let mut i: usize = 0;
    while i < filtered.len()
        invariant
            i <= filtered.len(),
            fv == filtered.deep_view(),
            vc@ == vc_type(),
            obc@ == obc_type(),
            ac@ == ac_type(),
            extras.deep_view() == ob_extras(fv.take(i as int)),
        decreases filtered.len() - i,
    {
        assert(fv.take(i + 1).drop_last() == fv.take(i as int));
        if filtered[i] != vc && filtered[i] != obc && filtered[i] != ac {
            extras.push(filtered[i].clone());
        }
        i = i + 1;
    }
    assert(fv.take(filtered.len() as int) == fv);
    if extras.len() > 0 {
        let msg = literal("OpenBadges type includes disallowed extra entries: [").concat(
            join(&extras, ", ").as_str(),
        ).concat("]");
        return Err(TemplateError::InvalidType(msg));
    }
    let mut r: Vec<String> = Vec::new();
    r.push(vc);
    if has_ac {
        r.push(ac);
        assert(r.deep_view() == seq![vc_type(), ac_type()]);
    } else {
        r.push(obc);
        assert(r.deep_view() == seq![vc_type(), obc_type()]);
    }
    Ok(r)
}

/// Normalizes and validates the `type` field of a template of data model `data_model`.
pub fn normalize_and_validate_type(type_input: Vec<String>, data_model: DataModel) -> (r: Result<Vec<String>, TemplateError>)
    ensures
        strings_result_view(r) == normalized_type(type_input.deep_view(), data_model),
{
    let filtered = drop_blank_entries(type_input);
    match data_model {
        DataModel::OpenBadges3_0 => normalize_open_badges_type(filtered),
        _ => Ok(normalize_standard_type(filtered)),
    }
}

/// Normalizes tags: trims them, drops empty ones and repetitions; `None` when none remain.
pub fn normalize_tags(tags: Option<Vec<String>>) -> (r: Option<Vec<String>>)
    ensures
        match tags {
            None => r is None,
            Some(t) => match normalized_tags(Some(t.deep_view())) {
                None => r is None,
                Some(n) => r matches Some(v) && v.deep_view() == n,
            },
        },
{
    let tags = match tags {
        None => return None,
        Some(t) => t,
    };
    let ghost tv = tags.deep_view();
    let mut kept: Vec<String> = Vec::new();
    let mut i: usize = 0;
    while i < tags.len()
        invariant
            i <= tags.len(),
            tv == tags.deep_view(),
            kept.deep_view() == drop_empty(trim_all(tv.take(i as int))),
        decreases tags.len() - i,
    {
        assert(tv.take(i + 1).drop_last() == tv.take(i as int));
        assert(trim_all(tv.take(i + 1)) == trim_all(tv.take(i as int)).push(trimmed(tv[i as int])));
        let ghost ta = trim_all(tv.take(i + 1));
        assert(ta.drop_last() == trim_all(tv.take(i as int)));
        assert(ta.last() == trimmed(tv[i as int]));
        let t = trim_string(tags[i].as_str());
        if t.unicode_len() != 0 {
            kept.push(t);
        }
        i = i + 1;
    }
    assert(tv.take(tags.len() as int) == tv);
    let deduped = dedup_entries(&kept);
    if deduped.len() == 0 {
        None
    } else {
        Some(deduped)
    }
}

/// Whether the non-status fields of a template in status `s` may change.
pub open spec fn editable_check(s: Status) -> Result<(), TemplateErrorView> {
    match s {
        Status::Draft | Status::Published => Ok(()),
        Status::Archived => Err(TemplateErrorView::ArchivedTemplateImmutable),
        Status::Deleted => Err(TemplateErrorView::DeletedTemplateTerminal),
    }
}

pub fn ensure_template_editable(status: &Status) -> (r: Result<(), TemplateError>)
    ensures
        unit_result_view(r) == editable_check(*status),
{
    match status {
        Status::Draft | Status::Published => Ok(()),
        Status::Archived => Err(TemplateError::ArchivedTemplateImmutable),
        Status::Deleted => Err(TemplateError::DeletedTemplateTerminal),
    }
}

/// The lower-case name of a status.
pub open spec fn status_text(s: Status) -> Seq<char> {
    match s {
        Status::Draft => "draft"@,
        Status::Published => "published"@,
        Status::Archived => "archived"@,
        Status::Deleted => "deleted"@,
    }
}

pub fn status_name(status: &Status) -> (r: &'static str)
    ensures
        r@ == status_text(*status),
{
    match status {
        Status::Draft => "draft",
        Status::Published => "published",
        Status::Archived => "archived",
        Status::Deleted => "deleted",
    }
}

/// Whether a template may move from status `current` to status `next`.
pub open spec fn transition_check(current: Status, next: Status) -> Result<(), TemplateErrorView> {
    match (current, next) {
        (Status::Deleted, _) => Err(TemplateErrorView::DeletedTemplateTerminal),
        (Status::Draft, _) => Ok(()),
        (Status::Published, Status::Published) | (Status::Published, Status::Archived) => Ok(()),
        (Status::Published, Status::Deleted) => Err(TemplateErrorView::ArchiveBeforeDeleteRequired),
        (Status::Archived, Status::Archived) | (Status::Archived, Status::Published) | (Status::Archived, Status::Deleted) => Ok(()),
        (from, to) => Err(TemplateErrorView::InvalidStatusTransition(
            "cannot transition template status from `"@ + status_text(from) + "` to `"@ + status_text(to) + "`"@,
        )),
    }
}

pub fn ensure_status_transition_allowed(current: &Status, next: &Status) -> (r: Result<(), TemplateError>)
    ensures
        unit_result_view(r) == transition_check(*current, *next),
{
    match (current, next) {
        (Status::Deleted, _) => Err(TemplateError::DeletedTemplateTerminal),
        (Status::Draft, _) => Ok(()),
        (Status::Published, Status::Published) | (Status::Published, Status::Archived) => Ok(()),
        (Status::Published, Status::Deleted) => Err(TemplateError::ArchiveBeforeDeleteRequired),
        (Status::Archived, Status::Archived) | (Status::Archived, Status::Published) | (Status::Archived, Status::Deleted) => Ok(()),
        (from, to) => Err(TemplateError::InvalidStatusTransition(
            literal("cannot transition template status from `").concat(status_name(from)).concat(
                "` to `",
            ).concat(status_name(to)).concat("`"),
        )),
    }
}

/// Whether a template in status `s` may be deleted.
pub open spec fn deletion_check(s: Status) -> Result<(), TemplateErrorView> {
    match s {
        Status::Draft | Status::Archived => Ok(()),
        Status::Published => Err(TemplateErrorView::ArchiveBeforeDeleteRequired),
        Status::Deleted => Err(TemplateErrorView::DeletedTemplateTerminal),
    }
}

pub fn ensure_template_can_be_deleted(status: &Status) -> (r: Result<(), TemplateError>)
    ensures
        unit_result_view(r) == deletion_check(*status),
{
    match status {
        Status::Draft | Status::Archived => Ok(()),
        Status::Published => Err(TemplateError::ArchiveBeforeDeleteRequired),
        Status::Deleted => Err(TemplateError::DeletedTemplateTerminal),
    }
}

/// Whether `iso8601::duration` accepts a text.
pub uninterp spec fn iso8601_duration_accepts(text: Seq<char>) -> bool;

/// What `chrono::DateTime::parse_from_rfc3339` reports for a text: `None` when it parses,
/// else the text of its error.
pub uninterp spec fn rfc3339_parse_error(text: Seq<char>) -> Option<Seq<char>>;

/// Calls `iso8601::duration`, reporting whether it parsed `s`.
#[verifier::external_body]
fn iso8601_duration_ok(s: &str) -> (r: bool)
    ensures
        r == iso8601_duration_accepts(s@),
{
    iso8601::duration(s).is_ok()
}

/// Calls `chrono::DateTime::parse_from_rfc3339`, giving the error's text when it fails.
#[verifier::external_body]
fn rfc3339_error(s: &str) -> (r: Option<String>)
    ensures
        match r {
            None => rfc3339_parse_error(s@) is None,
            Some(e) => rfc3339_parse_error(s@) == Some(e@),
        },
{
    match chrono::DateTime::parse_from_rfc3339(s) {
        Ok(_) => None,
        Err(e) => Some(e.to_string()),
    }
}

/// Whether an expiration value is valid.
pub open spec fn expiration_check(e: Expiration) -> Result<(), TemplateErrorView> {
    match e {
        Expiration::Never => Ok(()),
        Expiration::Duration(s) => if iso8601_duration_accepts(s@) {
            Ok(())
        } else {
            Err(TemplateErrorView::InvalidExpiration("`"@ + s@ + "` is not a valid ISO 8601 duration"@))
        },
        Expiration::DateTime(s) => match rfc3339_parse_error(s@) {
            None => Ok(()),
            Some(m) => Err(TemplateErrorView::InvalidExpiration(
                "`"@ + s@ + "` is not a valid ISO 8601 datetime: "@ + m,
            )),
        },
    }
}

pub fn validate_expiration(expiration: &Expiration) -> (r: Result<(), TemplateError>)
    ensures
        unit_result_view(r) == expiration_check(*expiration),
{
    match expiration {
        Expiration::Never => Ok(()),
        Expiration::Duration(s) => {
            if iso8601_duration_ok(s.as_str()) {
                Ok(())
            } else {
                Err(TemplateError::InvalidExpiration(
                    literal("`").concat(s.as_str()).concat("` is not a valid ISO 8601 duration"),
                ))
            }
        },
        Expiration::DateTime(s) => match rfc3339_error(s.as_str()) {
            None => Ok(()),
            Some(m) => Err(TemplateError::InvalidExpiration(
                literal("`").concat(s.as_str()).concat("` is not a valid ISO 8601 datetime: ").concat(
                    m.as_str(),
                ),
            )),
        },
    }
}

} // verus!
