use vstd::prelude::*;
use crate::json::{field, json_text, to_text, Json, JsonView};
use crate::text::{chars_of, join, seq_join};

verus! {

/// The kind of a credential, which decides the JSON Schema it is validated against.
#[derive(Debug, Clone, Copy, PartialEq, Eq, Structural)]
pub enum CredentialType {
    VerifiableCredential,
    OpenBadgeCredential,
    EuropeanDigitalCredential,
    Unknown,
}

/// The kind and version of a credential.
#[derive(Debug, Clone, Copy, PartialEq, Eq, Structural)]
pub enum CredentialTypeVersion {
    VerifiableCredentialV1_1,
    VerifiableCredentialV2,
    EuropeanDigitalCredentialV3_3,
    OpenBadgeCredentialV3,
    Unknown,
}

/// Why a credential could not be validated, or how it failed validation.
#[derive(Debug, Clone, PartialEq, Eq)]
pub enum JsonSchemaError {
    GetCredentialTypeError(String),
    InvalidJsonData(String),
    CredentialValidationError(String, Vec<String>),
}

/// The decimal digits of `n`.
pub open spec fn decimal(n: nat) -> Seq<char>
    decreases n,
{
    if n < 10 {
        seq![digit_char(n)]
    } else {
        decimal(n / 10).push(digit_char(n % 10))
    }
}

pub open spec fn digit_char(d: nat) -> char {
    if d == 0 { '0' } else if d == 1 { '1' } else if d == 2 { '2' } else if d == 3 { '3' } else if d == 4 { '4' }
    else if d == 5 { '5' } else if d == 6 { '6' } else if d == 7 { '7' } else if d == 8 { '8' } else { '9' }
}

fn digit(d: usize) -> (c: char)
    requires
        d < 10,
    ensures
        c == digit_char(d as nat),
{
    if d == 0 { '0' } else if d == 1 { '1' } else if d == 2 { '2' } else if d == 3 { '3' } else if d == 4 { '4' }
    else if d == 5 { '5' } else if d == 6 { '6' } else if d == 7 { '7' } else if d == 8 { '8' } else { '9' }
}

/// The decimal text of `n`.
pub fn decimal_text(n: usize) -> (r: String)
    ensures
        r@ == decimal(n as nat),
    decreases n,
{
    if n < 10 {
        let mut r = String::new();
        r.push(digit(n));
        assert(r@ =~= seq![digit_char(n as nat)]);
        r
    } else {
        let mut r = decimal_text(n / 10);
        r.push(digit(n % 10));
        r
    }
}

/// The numbered lines of a list of validation errors.
pub open spec fn numbered_errors(errors: Seq<Seq<char>>) -> Seq<Seq<char>> {
    Seq::new(errors.len(), |i: int| "  ["@ + decimal((i + 1) as nat) + "] "@ + errors[i])
}

/// The validation errors, numbered from 1, one per line.
pub open spec fn formatted_errors(errors: Seq<Seq<char>>) -> Seq<char> {
    seq_join(numbered_errors(errors), "\n"@)
}

/// Numbers the validation errors from 1, one per line.
pub fn format_errors(errors: &Vec<String>) -> (r: String)
    ensures
        r@ == formatted_errors(errors.deep_view()),
{
    let ghost ev = errors.deep_view();
    let mut lines: Vec<String> = Vec::new();
    let mut i: usize = 0;
    while i < errors.len()
        invariant
            i <= errors.len(),
            ev == errors.deep_view(),
            lines.deep_view() == numbered_errors(ev).take(i as int),
        decreases errors.len() - i,
    {
        let number = decimal_text(i + 1);
        let line = String::from_str("  [").concat(number.as_str()).concat("] ").concat(errors[i].as_str());
        let ghost before = lines.deep_view();
        let ghost expected = "  ["@ + decimal((i + 1) as nat) + "] "@ + ev[i as int];
        assert(line@ == expected);
        assert(numbered_errors(ev)[i as int] == expected);
        lines.push(line);
        assert(lines.deep_view() =~= before.push(expected));
        assert(numbered_errors(ev).take(i + 1) =~= numbered_errors(ev).take(i as int).push(expected));
        i = i + 1;
    }
    assert(numbered_errors(ev).take(errors.len() as int) =~= numbered_errors(ev));
    join(&lines, "\n")
}

/// The message that an error displays.
pub open spec fn json_schema_error_message(e: JsonSchemaError) -> Seq<char> {
    match e {
        JsonSchemaError::GetCredentialTypeError(s) => "Get Credential Type Error: `"@ + s@ + "`"@,
        JsonSchemaError::InvalidJsonData(s) => "Failed to parse JSON data: `"@ + s@ + "`"@,
        JsonSchemaError::CredentialValidationError(t, errors) => "Credential validation failed for type `"@ + t@ + "`:\n"@
            + formatted_errors(errors.deep_view()),
    }
}

impl JsonSchemaError {
    /// The message that the error displays.
    pub fn message(&self) -> (r: String)
        ensures
            r@ == json_schema_error_message(*self),
    {
        match self {
            JsonSchemaError::GetCredentialTypeError(s) => String::from_str("Get Credential Type Error: `").concat(
                s.as_str(),
            ).concat("`"),
            JsonSchemaError::InvalidJsonData(s) => String::from_str("Failed to parse JSON data: `").concat(s.as_str()).concat(
                "`",
            ),
            JsonSchemaError::CredentialValidationError(t, errors) => String::from_str(
                "Credential validation failed for type `",
            ).concat(t.as_str()).concat("`:\n").concat(format_errors(errors).as_str()),
        }
    }
}

/// The name of a version, as it is displayed.
pub open spec fn version_name(v: CredentialTypeVersion) -> Seq<char> {
    match v {
        CredentialTypeVersion::VerifiableCredentialV1_1 => "VerifiableCredentialV1_1"@,
        CredentialTypeVersion::VerifiableCredentialV2 => "VerifiableCredentialV2"@,
        CredentialTypeVersion::EuropeanDigitalCredentialV3_3 => "EuropeanDigitalCredentialV3_3"@,
        CredentialTypeVersion::OpenBadgeCredentialV3 => "OpenBadgeCredentialV3"@,
        CredentialTypeVersion::Unknown => "Unknown"@,
    }
}

/// The registry key of the JSON Schema of a version, or why there is none.
pub open spec fn validator_key_of(v: CredentialTypeVersion) -> Result<Seq<char>, Seq<char>> {
    match v {
        CredentialTypeVersion::VerifiableCredentialV1_1 => Ok("VerifiableCredentialV1_1.json"@),
        CredentialTypeVersion::VerifiableCredentialV2 => Ok("VerifiableCredentialV2.json"@),
        CredentialTypeVersion::EuropeanDigitalCredentialV3_3 => Ok("EuropeanDigitalCredentialV3_3.json"@),
        CredentialTypeVersion::OpenBadgeCredentialV3 => Ok("OpenBadgeCredentialV3.json"@),
        CredentialTypeVersion::Unknown => Err("Unknown Credential Type version, no corresponding validator found"@),
    }
}

/// Why no validator is at hand for a version whose schema did not compile or is missing.
pub open spec fn missing_validator_message(v: CredentialTypeVersion) -> Seq<char> {
    match v {
        CredentialTypeVersion::VerifiableCredentialV1_1 => "No validator found for Verifiable Credential v1.1"@,
        CredentialTypeVersion::VerifiableCredentialV2 => "No validator found for Verifiable Credential v2"@,
        CredentialTypeVersion::EuropeanDigitalCredentialV3_3 => "No validator found for European Digital Credential v3.3"@,
        CredentialTypeVersion::OpenBadgeCredentialV3 => "No validator found for OpenBadge Credential v3"@,
        CredentialTypeVersion::Unknown => "Unknown Credential Type version, no corresponding validator found"@,
    }
}

impl CredentialTypeVersion {
    /// The error reported when no validator is at hand for this version.
    pub fn missing_validator(&self) -> (r: JsonSchemaError)
        ensures
            r matches JsonSchemaError::GetCredentialTypeError(m) && m@ == missing_validator_message(*self),
    {
        let m = match self {
            CredentialTypeVersion::VerifiableCredentialV1_1 => "No validator found for Verifiable Credential v1.1",
            CredentialTypeVersion::VerifiableCredentialV2 => "No validator found for Verifiable Credential v2",
            CredentialTypeVersion::EuropeanDigitalCredentialV3_3 => "No validator found for European Digital Credential v3.3",
            CredentialTypeVersion::OpenBadgeCredentialV3 => "No validator found for OpenBadge Credential v3",
            CredentialTypeVersion::Unknown => "Unknown Credential Type version, no corresponding validator found",
        };
        JsonSchemaError::GetCredentialTypeError(String::from_str(m))
    }

    /// The name of the version, as it is displayed.
    pub fn name(&self) -> (r: String)
        ensures
            r@ == version_name(*self),
    {
        let n = match self {
            CredentialTypeVersion::VerifiableCredentialV1_1 => "VerifiableCredentialV1_1",
            CredentialTypeVersion::VerifiableCredentialV2 => "VerifiableCredentialV2",
            CredentialTypeVersion::EuropeanDigitalCredentialV3_3 => "EuropeanDigitalCredentialV3_3",
            CredentialTypeVersion::OpenBadgeCredentialV3 => "OpenBadgeCredentialV3",
            CredentialTypeVersion::Unknown => "Unknown",
        };
        String::from_str(n)
    }

    /// The registry key of the JSON Schema that validates this version.
    pub fn validator_key(&self) -> (r: Result<&'static str, JsonSchemaError>)
        ensures
            match validator_key_of(*self) {
                Ok(k) => r matches Ok(x) && x@ == k,
                Err(m) => r matches Err(JsonSchemaError::GetCredentialTypeError(x)) && x@ == m,
            },
    {
        match self {
            CredentialTypeVersion::VerifiableCredentialV1_1 => Ok("VerifiableCredentialV1_1.json"),
            CredentialTypeVersion::VerifiableCredentialV2 => Ok("VerifiableCredentialV2.json"),
            CredentialTypeVersion::EuropeanDigitalCredentialV3_3 => Ok("EuropeanDigitalCredentialV3_3.json"),
            CredentialTypeVersion::OpenBadgeCredentialV3 => Ok("OpenBadgeCredentialV3.json"),
            CredentialTypeVersion::Unknown => Err(
                JsonSchemaError::GetCredentialTypeError(
                    String::from_str("Unknown Credential Type version, no corresponding validator found"),
                ),
            ),
        }
    }

    /// What validation reports once the credential was checked against this version's
    /// schema with `errors` found: an unknown version is not validated.
    pub fn validation_outcome(&self, errors: Vec<String>) -> (r: Result<(), JsonSchemaError>)
        ensures
            *self == CredentialTypeVersion::Unknown || errors@.len() == 0 ==> r is Ok,
            *self != CredentialTypeVersion::Unknown && errors@.len() > 0 ==> (r matches Err(
                JsonSchemaError::CredentialValidationError(t, es),
            ) && t@ == version_name(*self) && es == errors),
    {
        if *self == CredentialTypeVersion::Unknown || errors.len() == 0 {
            Ok(())
        } else {
            Err(JsonSchemaError::CredentialValidationError(self.name(), errors))
        }
    }
}

/// How one schema violation is reported: its message, the path of the offending field and
/// the path of the violated keyword in the schema, one per line.
pub open spec fn validation_error_spec(message: Seq<char>, field: Seq<char>, schema_path: Seq<char>) -> Seq<char> {
    "Error: "@ + message + "\nField: "@ + field + "\nSchema Path: "@ + schema_path + "\n"@
}

/// The report of one schema violation.
pub fn validation_error_text(message: &str, field: &str, schema_path: &str) -> (r: String)
    ensures
        r@ == validation_error_spec(message@, field@, schema_path@),
{
    String::from_str("Error: ").concat(message).concat("\nField: ").concat(field).concat("\nSchema Path: ").concat(
        schema_path,
    ).concat("\n")
}

/// What `serde_json::from_value::<Vec<String>>` gives for the value that `serde_json::from_str`
/// reads from a text: the strings, or the text of the error.
pub uninterp spec fn string_list_result(text: Seq<char>) -> Result<Seq<Seq<char>>, Seq<char>>;

/// Every item is a JSON string.
pub open spec fn all_strings(items: Seq<JsonView>) -> bool {
    forall|i: int| 0 <= i < items.len() ==> #[trigger] items[i] is Str
}

/// The texts of string items.
pub open spec fn strings_of(items: Seq<JsonView>) -> Seq<Seq<char>> {
    Seq::new(items.len(), |i: int| items[i]->Str_0)
}

/// Whether a number's text is made of number characters only (digits, signs, the decimal
/// point and exponent marks), so that it cannot change how the text around it reads.
pub open spec fn number_like(n: Seq<char>) -> bool {
    n.len() > 0 && forall|i: int|
        0 <= i < n.len() ==> ('0' <= #[trigger] n[i] <= '9' || n[i] == '-' || n[i] == '+' || n[i] == '.' || n[i]
            == 'e' || n[i] == 'E')
}

/// A value whose numbers all have number-like texts, as every value read from JSON does.
pub open spec fn plain_numbers(v: JsonView) -> bool
    decreases v,
{
    match v {
        JsonView::Number(n) => number_like(n),
        JsonView::Array(items) => items_plain_numbers(items),
        JsonView::Object(ms) => members_plain_numbers(ms),
        _ => true,
    }
}

pub open spec fn items_plain_numbers(items: Seq<JsonView>) -> bool
    decreases items,
{
    if items.len() == 0 {
        true
    } else {
        items_plain_numbers(items.drop_last()) && plain_numbers(items.last())
    }
}

pub open spec fn members_plain_numbers(ms: Seq<(Seq<char>, JsonView)>) -> bool
    decreases ms,
{
    if ms.len() == 0 {
        true
    } else {
        members_plain_numbers(ms.drop_last()) && plain_numbers(ms.last().1)
    }
}

/// Reads `text` with `serde_json::from_str` and converts the value with
/// `serde_json::from_value::<Vec<String>>`: the strings, or the text of the error. The text of
/// a JSON array of strings reads back as those strings; the text of any other value whose
/// numbers are written with number characters only either fails to read or reads back as a
/// value of the same shape, which is no list of strings, so the conversion fails. The
/// error's text, and what comes of other number texts, are left to the name.
#[verifier::external_body]
fn string_list(text: &str) -> (r: Result<Vec<String>, String>)
    ensures
        match r {
            Ok(v) => string_list_result(text@) == Ok::<Seq<Seq<char>>, Seq<char>>(v.deep_view()),
            Err(e) => string_list_result(text@) == Err::<Seq<Seq<char>>, Seq<char>>(e@),
        },
        r is Err ==> forall|items: Seq<JsonView>|
            text@ == #[trigger] json_text(JsonView::Array(items)) ==> !all_strings(items),
        r matches Ok(v) ==> forall|items: Seq<JsonView>|
            text@ == #[trigger] json_text(JsonView::Array(items)) && all_strings(items) ==> v.deep_view()
                == strings_of(items),
        r is Ok ==> forall|v: JsonView|
            text@ == #[trigger] json_text(v) && plain_numbers(v) ==> string_items(v) is Some,
{
    let value: serde_json::Value = match serde_json::from_str(text) {
        Ok(v) => v,
        Err(e) => return Err(e.to_string()),
    };
    serde_json::from_value::<Vec<String>>(value).map_err(|e| e.to_string())
}

/// The strings of a context that is an array of strings.
pub open spec fn string_items(v: JsonView) -> Option<Seq<Seq<char>>> {
    match v {
        JsonView::Array(items) => if all_strings(items) {
            Some(strings_of(items))
        } else {
            None
        },
        _ => None,
    }
}

/// The outcome of telling a version from a context read as `list`.
pub open spec fn version_outcome(
    t: CredentialType,
    list: Result<Seq<Seq<char>>, Seq<char>>,
    r: Result<CredentialTypeVersion, JsonSchemaError>,
) -> bool {
    match list {
        Err(e) => r matches Err(JsonSchemaError::InvalidJsonData(x)) && x@ == e,
        Ok(ctx) => match version_from_context(t, ctx) {
            Ok(v) => r == Ok::<CredentialTypeVersion, JsonSchemaError>(v),
            Err(m) => r matches Err(JsonSchemaError::GetCredentialTypeError(x)) && x@ == m,
        },
    }
}

/// The `@context` entry of a credential, `null` when it has none.
pub open spec fn context_of(data: JsonView) -> JsonView {
    match field(data, "@context"@) {
        Some(v) => v,
        None => JsonView::Null,
    }
}

pub open spec fn has_prefix(s: Seq<char>, p: Seq<char>) -> bool {
    s.len() >= p.len() && s.subrange(0, p.len() as int) == p
}

pub open spec fn has_suffix(s: Seq<char>, p: Seq<char>) -> bool {
    s.len() >= p.len() && s.subrange(s.len() - p.len(), s.len() as int) == p
}

fn starts_with(s: &Vec<char>, p: &Vec<char>) -> (r: bool)
    ensures
        r == has_prefix(s@, p@),
{
    if s.len() < p.len() {
        return false;
    }
    let mut i: usize = 0;
    while i < p.len()
        invariant
            i <= p.len(),
            p.len() <= s.len(),
            forall|k: int| 0 <= k < i ==> s@[k] == p@[k],
        decreases p.len() - i,
    {
        if s[i] != p[i] {
            assert(s@.subrange(0, p@.len() as int)[i as int] != p@[i as int]);
            return false;
        }
        i = i + 1;
    }
    assert(s@.subrange(0, p@.len() as int) =~= p@);
    true
}

fn ends_with(s: &Vec<char>, p: &Vec<char>) -> (r: bool)
    ensures
        r == has_suffix(s@, p@),
{
    if s.len() < p.len() {
        return false;
    }
    let off = s.len() - p.len();
    let mut i: usize = 0;
    while i < p.len()
        invariant
            i <= p.len(),
            off + p.len() == s.len(),
            forall|k: int| 0 <= k < i ==> s@[off + k] == p@[k],
        decreases p.len() - i,
    {
        if s[off + i] != p[i] {
            assert(s@.subrange(s@.len() - p@.len(), s@.len() as int)[i as int] != p@[i as int]);
            return false;
        }
        i = i + 1;
    }
    assert(s@.subrange(s@.len() - p@.len(), s@.len() as int) =~= p@);
    true
}

pub open spec fn ob_context_prefix() -> Seq<char> {
    "https://purl.imsglobal.org/spec/ob/v3p0/context-"@
}

/// The version of a credential of kind `t` whose `@context` holds the strings `ctx`, or why
/// none can be told.
pub open spec fn version_from_context(t: CredentialType, ctx: Seq<Seq<char>>) -> Result<CredentialTypeVersion, Seq<char>> {
    match t {
        CredentialType::OpenBadgeCredential => if ctx.len() < 2 {
            Err("Invalid Credential Format: Second context element missing from OpenBadge Credential"@)
        } else if has_prefix(ctx[1], ob_context_prefix()) && has_suffix(ctx[1], ".json"@) {
            Ok(CredentialTypeVersion::OpenBadgeCredentialV3)
        } else {
            Err("Invalid Credential Format: Unexpected second context element in OpenBadge Credential"@)
        },
        CredentialType::VerifiableCredential => if ctx.len() < 1 {
            Err("Invalid Credential Format: Required first context element missing from Verifiable Credential"@)
        } else if ctx[0] == "https://www.w3.org/2018/credentials/v1"@ {
            Ok(CredentialTypeVersion::VerifiableCredentialV1_1)
        } else if ctx[0] == "https://www.w3.org/ns/credentials/v2"@ {
            Ok(CredentialTypeVersion::VerifiableCredentialV2)
        } else {
            Err("Invalid Credential Format: Unexpected first context element in Verifiable Credential"@)
        },
        CredentialType::EuropeanDigitalCredential => Ok(CredentialTypeVersion::EuropeanDigitalCredentialV3_3),
        CredentialType::Unknown => Ok(CredentialTypeVersion::Unknown),
    }
}

/// What telling the version of a credential of kind `t` from `data` answers.
pub open spec fn version_told(t: CredentialType, data: JsonView, r: Result<CredentialTypeVersion, JsonSchemaError>) -> bool {
    match string_items(context_of(data)) {
        Some(ctx) => version_outcome(t, Ok(ctx), r),
        None => {
            &&& version_outcome(t, string_list_result(json_text(context_of(data))), r)
            &&& plain_numbers(context_of(data)) ==> r matches Err(JsonSchemaError::InvalidJsonData(_))
        },
    }
}

/// Whether `s` begins with `p`.
pub open spec fn begins_with(s: Seq<char>, p: Seq<char>) -> bool {
    s.len() >= p.len() && forall|i: int| 0 <= i < p.len() ==> s[i] == p[i]
}

/// Whether `s` ends with `p`.
pub open spec fn ends_with_text(s: Seq<char>, p: Seq<char>) -> bool {
    s.len() >= p.len() && forall|i: int| 0 <= i < p.len() ==> s[s.len() - p.len() + i] == p[i]
}

/// The version of a credential follows its `@context` list of strings `items`: an
/// OpenBadge credential is version 3 exactly when the second entry is an OpenBadges v3p0
/// context document (`.../context-*.json`), whatever entries follow, and is refused when
/// there is no second entry; a Verifiable Credential is told by its first entry; a European
/// Digital Credential is always version 3.3, and an unknown kind has an unknown version.
pub proof fn lemma_version_follows_context(
    t: CredentialType,
    data: JsonView,
    items: Seq<JsonView>,
    r: Result<CredentialTypeVersion, JsonSchemaError>,
)
    requires
        version_told(t, data, r),
        context_of(data) == JsonView::Array(items),
        forall|i: int| 0 <= i < items.len() ==> #[trigger] items[i] is Str,
    ensures
        t == CredentialType::OpenBadgeCredential && items.len() >= 2 ==> {
            let second = items[1]->Str_0;
            if begins_with(second, "https://purl.imsglobal.org/spec/ob/v3p0/context-"@) && ends_with_text(
                second,
                ".json"@,
            ) {
                r == Ok::<CredentialTypeVersion, JsonSchemaError>(CredentialTypeVersion::OpenBadgeCredentialV3)
            } else {
                r matches Err(JsonSchemaError::GetCredentialTypeError(_))
            }
        },
        t == CredentialType::OpenBadgeCredential && items.len() < 2 ==> r matches Err(
            JsonSchemaError::GetCredentialTypeError(_),
        ),
        t == CredentialType::VerifiableCredential && items.len() >= 1 && items[0]->Str_0
            == "https://www.w3.org/2018/credentials/v1"@ ==> r == Ok::<CredentialTypeVersion, JsonSchemaError>(
            CredentialTypeVersion::VerifiableCredentialV1_1,
        ),
        t == CredentialType::VerifiableCredential && items.len() >= 1 && items[0]->Str_0
            == "https://www.w3.org/ns/credentials/v2"@ ==> r == Ok::<CredentialTypeVersion, JsonSchemaError>(
            CredentialTypeVersion::VerifiableCredentialV2,
        ),
        t == CredentialType::EuropeanDigitalCredential ==> r == Ok::<CredentialTypeVersion, JsonSchemaError>(
            CredentialTypeVersion::EuropeanDigitalCredentialV3_3,
        ),
        t == CredentialType::Unknown ==> r == Ok::<CredentialTypeVersion, JsonSchemaError>(
            CredentialTypeVersion::Unknown,
        ),
{
    assert(all_strings(items));
    let ctx = strings_of(items);
    assert(string_items(context_of(data)) == Some(ctx));
    if items.len() >= 2 {
        let second = items[1]->Str_0;
        let p = "https://purl.imsglobal.org/spec/ob/v3p0/context-"@;
        assert(ctx[1] == second);
        assert(ob_context_prefix() == p);
        assert(has_prefix(second, p) <==> begins_with(second, p)) by {
            if begins_with(second, p) {
                assert(second.subrange(0, p.len() as int) =~= p);
            }
            if has_prefix(second, p) {
                assert forall|i: int| 0 <= i < p.len() implies second[i] == p[i] by {
                    assert(second.subrange(0, p.len() as int)[i] == p[i]);
                }
            }
        }
        let q = ".json"@;
        assert(has_suffix(second, q) <==> ends_with_text(second, q)) by {
            if ends_with_text(second, q) {
                assert(second.subrange(second.len() - q.len(), second.len() as int) =~= q);
            }
            if has_suffix(second, q) {
                assert forall|i: int| 0 <= i < q.len() implies second[second.len() - q.len() + i] == q[i] by {
                    assert(second.subrange(second.len() - q.len(), second.len() as int)[i] == q[i]);
                }
            }
        }
    }
    if items.len() >= 1 {
        assert(ctx[0] == items[0]->Str_0);
        reveal_strlit("https://www.w3.org/2018/credentials/v1");
        reveal_strlit("https://www.w3.org/ns/credentials/v2");
        assert("https://www.w3.org/2018/credentials/v1"@[19] != "https://www.w3.org/ns/credentials/v2"@[19]);
    }
}

impl CredentialType {
    /// The version of a credential of this kind, told from its `@context`. The `@context`
    /// must convert to a list of strings whatever the kind.
    pub fn get_version(&self, data: &Json) -> (r: Result<CredentialTypeVersion, JsonSchemaError>)
        ensures
            version_told(*self, data@, r),
    {
        let null = Json::Null;
        let ctx = match data.get("@context") {
            Some(c) => c,
            None => &null,
        };
        let text = to_text(ctx);
        let listed = string_list(text.as_str());
        proof {
            if let JsonView::Array(items) = ctx@ {
                assert(text@ == json_text(JsonView::Array(items)));
            }
            assert(text@ == json_text(ctx@));
        }
        let list = match listed {
            Ok(l) => l,
            Err(e) => return Err(JsonSchemaError::InvalidJsonData(e)),
        };
        match self {
            CredentialType::OpenBadgeCredential => {
                if list.len() < 2 {
                    return Err(JsonSchemaError::GetCredentialTypeError(String::from_str(
                        "Invalid Credential Format: Second context element missing from OpenBadge Credential",
                    )));
                }
                let c = chars_of(list[1].as_str());
                let prefix = chars_of("https://purl.imsglobal.org/spec/ob/v3p0/context-");
                let suffix = chars_of(".json");
                if starts_with(&c, &prefix) && ends_with(&c, &suffix) {
                    Ok(CredentialTypeVersion::OpenBadgeCredentialV3)
                } else {
                    Err(JsonSchemaError::GetCredentialTypeError(String::from_str(
                        "Invalid Credential Format: Unexpected second context element in OpenBadge Credential",
                    )))
                }
            },
            CredentialType::VerifiableCredential => {
                if list.len() < 1 {
                    return Err(JsonSchemaError::GetCredentialTypeError(String::from_str(
                        "Invalid Credential Format: Required first context element missing from Verifiable Credential",
                    )));
                }
                if crate::json::str_equal(list[0].as_str(), "https://www.w3.org/2018/credentials/v1") {
                    Ok(CredentialTypeVersion::VerifiableCredentialV1_1)
                } else if crate::json::str_equal(list[0].as_str(), "https://www.w3.org/ns/credentials/v2") {
                    Ok(CredentialTypeVersion::VerifiableCredentialV2)
                } else {
                    Err(JsonSchemaError::GetCredentialTypeError(String::from_str(
                        "Invalid Credential Format: Unexpected first context element in Verifiable Credential",
                    )))
                }
            },
            CredentialType::EuropeanDigitalCredential => Ok(CredentialTypeVersion::EuropeanDigitalCredentialV3_3),
            CredentialType::Unknown => Ok(CredentialTypeVersion::Unknown),
        }
    }
}

} // verus!
