use vstd::prelude::*;
use crate::json::{copy_json, Json, JsonView};
use crate::template::types::{Authorization, InputMode, TxCodeConstraints};

verus! {

/// A JWS signing algorithm.
#[derive(Debug, Clone, Copy, PartialEq, Eq, Structural)]
pub enum SigningAlgorithm {
    HS256,
    HS384,
    HS512,
    ES256,
    ES384,
    RS256,
    RS384,
    RS512,
    PS256,
    PS384,
    PS512,
    EdDSA,
}

/// Whether credentials can be signed with an algorithm.
pub open spec fn credential_signing_supported(a: SigningAlgorithm) -> bool {
    a == SigningAlgorithm::EdDSA || a == SigningAlgorithm::ES256
}

/// The name under which a supported algorithm is advertised.
pub open spec fn signing_alg_name(a: SigningAlgorithm) -> Seq<char> {
    if a == SigningAlgorithm::EdDSA { "EdDSA"@ } else { "ES256"@ }
}

/// The names of the credential signing algorithms, in order; only EdDSA and ES256 are
/// supported.
pub fn credential_signing_alg_values_supported(algorithms: &Vec<SigningAlgorithm>) -> (r: Vec<String>)
    requires
        forall|i: int| 0 <= i < algorithms@.len() ==> credential_signing_supported(#[trigger] algorithms@[i]),
    ensures
        r.deep_view() == algorithms@.map_values(|a: SigningAlgorithm| signing_alg_name(a)),
{
    let mut out: Vec<String> = Vec::new();
    let mut i: usize = 0;
    while i < algorithms.len()
        invariant
            i <= algorithms@.len(),
            forall|k: int| 0 <= k < algorithms@.len() ==> credential_signing_supported(#[trigger] algorithms@[k]),
            out.deep_view() == algorithms@.take(i as int).map_values(|a: SigningAlgorithm| signing_alg_name(a)),
        decreases algorithms.len() - i,
    {
        let name = match algorithms[i] {
            SigningAlgorithm::EdDSA => String::from_str("EdDSA"),
            _ => String::from_str("ES256"),
        };
        let ghost before = out.deep_view();
        out.push(name);
        assert(out.deep_view() =~= before.push(signing_alg_name(algorithms@[i as int])));
        assert(algorithms@.take(i + 1).map_values(|a: SigningAlgorithm| signing_alg_name(a)) =~= algorithms@.take(
            i as int,
        ).map_values(|a: SigningAlgorithm| signing_alg_name(a)).push(signing_alg_name(algorithms@[i as int])));
        i = i + 1;
    }
    assert(algorithms@.take(algorithms.len() as int) =~= algorithms@);
    out
}


/// The views of a list of JSON values.
pub open spec fn jsons_view(v: Seq<Json>) -> Seq<JsonView> {
    v.map_values(|j: Json| j@)
}

/// A copy of a list of JSON values.
pub fn copy_jsons(v: &Vec<Json>) -> (r: Vec<Json>)
    ensures
        jsons_view(r@) == jsons_view(v@),
{
    let mut out: Vec<Json> = Vec::new();
    let mut i: usize = 0;
    while i < v.len()
        invariant
            i <= v@.len(),
            out@.len() == i,
            jsons_view(out@) == jsons_view(v@.take(i as int)),
        decreases v.len() - i,
    {
        let ghost before = out@;
        out.push(copy_json(&v[i]));
        assert forall|k: int| 0 <= k < i + 1 implies #[trigger] jsons_view(out@)[k] == jsons_view(v@.take(i + 1))[k] by {
            if k < i {
                assert(jsons_view(before)[k] == jsons_view(v@.take(i as int))[k]);
                assert(out@[k] == before[k]);
            } else {
                assert(out@[k]@ == v@[k]@);
            }
        }
        assert(jsons_view(out@) =~= jsons_view(v@.take(i + 1)));
        i = i + 1;
    }
    assert(v@.take(v@.len() as int) == v@);
    out
}

/// A copy of a list of strings.
pub fn copy_strings(v: &Vec<String>) -> (r: Vec<String>)
    ensures
        r.deep_view() == v.deep_view(),
{
    let mut out: Vec<String> = Vec::new();
    let mut i: usize = 0;
    while i < v.len()
        invariant
            i <= v@.len(),
            out@.len() == i,
            out.deep_view() == v.deep_view().take(i as int),
        decreases v.len() - i,
    {
        let ghost before = out.deep_view();
        out.push(v[i].clone());
        assert forall|k: int| 0 <= k < i + 1 implies #[trigger] out.deep_view()[k] == v.deep_view().take(i + 1)[k] by {
            if k < i {
                assert(before[k] == v.deep_view().take(i as int)[k]);
            } else {
                assert(out@[k]@ == v@[k]@);
            }
        }
        assert(out.deep_view() =~= v.deep_view().take(i + 1));
        i = i + 1;
    }
    assert(v.deep_view().take(v@.len() as int) == v.deep_view());
    out
}

/// A copy of a list of signing algorithms.
pub fn copy_algorithms(v: &Vec<SigningAlgorithm>) -> (r: Vec<SigningAlgorithm>)
    ensures
        r@ == v@,
{
    let mut out: Vec<SigningAlgorithm> = Vec::new();
    let mut i: usize = 0;
    while i < v.len()
        invariant
            i <= v@.len(),
            out@ == v@.take(i as int),
        decreases v.len() - i,
    {
        out.push(v[i]);
        assert(out@ =~= v@.take(i + 1));
        i = i + 1;
    }
    assert(v@.take(v@.len() as int) == v@);
    out
}

/// The value of the transaction code constraints of a holder authorization.
pub struct TxCodeValue {
    pub input_mode: Option<InputMode>,
    pub length: Option<u32>,
    pub description: Option<Seq<char>>,
}

/// The value of a holder authorization.
pub struct AuthorizationValue {
    pub pre_authorized: bool,
    pub tx_code_constraints: Option<TxCodeValue>,
}

pub open spec fn tx_code_value(t: TxCodeConstraints) -> TxCodeValue {
    TxCodeValue {
        input_mode: t.input_mode,
        length: t.length,
        description: match t.description {
            Some(d) => Some(d@),
            None => None,
        },
    }
}

pub open spec fn authorization_value(a: Authorization) -> AuthorizationValue {
    AuthorizationValue {
        pre_authorized: a.pre_authorized,
        tx_code_constraints: match a.tx_code_constraints {
            Some(t) => Some(tx_code_value(t)),
            None => None,
        },
    }
}

/// A copy of a holder authorization.
pub fn copy_authorization(a: &Authorization) -> (r: Authorization)
    ensures
        authorization_value(r) == authorization_value(*a),
{
    let tx = match &a.tx_code_constraints {
        Some(t) => Some(TxCodeConstraints {
            input_mode: t.input_mode,
            length: t.length,
            description: match &t.description {
                Some(d) => Some(d.clone()),
                None => None,
            },
        }),
        None => None,
    };
    Authorization { pre_authorized: a.pre_authorized, tx_code_constraints: tx }
}

/// A credential configuration as the issuer offers it: its format with the format's
/// parameters, the key binding methods and signing algorithms it supports, the algorithms
/// its JWT proofs may use, how it is displayed, and its claims.
#[derive(Debug, PartialEq)]
pub struct CredentialConfigurationObject {
    pub credential_format: Json,
    pub cryptographic_binding_methods_supported: Vec<String>,
    pub credential_signing_alg_values_supported: Vec<String>,
    pub proof_signing_alg_values_supported: Vec<SigningAlgorithm>,
    pub display: Vec<Json>,
    pub claims: Option<Json>,
}

/// The value of a credential configuration.
pub struct ConfigurationValue {
    pub format: JsonView,
    pub binding_methods: Seq<Seq<char>>,
    pub signing_alg_values: Seq<Seq<char>>,
    pub proof_signing_algs: Seq<SigningAlgorithm>,
    pub display: Seq<JsonView>,
    pub claims: Option<JsonView>,
}

impl View for CredentialConfigurationObject {
    type V = ConfigurationValue;

    open spec fn view(&self) -> ConfigurationValue {
        ConfigurationValue {
            format: self.credential_format@,
            binding_methods: self.cryptographic_binding_methods_supported.deep_view(),
            signing_alg_values: self.credential_signing_alg_values_supported.deep_view(),
            proof_signing_algs: self.proof_signing_alg_values_supported@,
            display: jsons_view(self.display@),
            claims: match self.claims {
                Some(c) => Some(c@),
                None => None,
            },
        }
    }
}

/// A copy of a credential configuration.
pub fn copy_configuration(c: &CredentialConfigurationObject) -> (r: CredentialConfigurationObject)
    ensures
        r@ == c@,
{
    CredentialConfigurationObject {
        credential_format: copy_json(&c.credential_format),
        cryptographic_binding_methods_supported: copy_strings(&c.cryptographic_binding_methods_supported),
        credential_signing_alg_values_supported: copy_strings(&c.credential_signing_alg_values_supported),
        proof_signing_alg_values_supported: copy_algorithms(&c.proof_signing_alg_values_supported),
        display: copy_jsons(&c.display),
        claims: match &c.claims {
            Some(j) => Some(copy_json(j)),
            None => None,
        },
    }
}

/// The credential configuration registered for a template.
#[derive(Debug, PartialEq)]
pub struct ConfigurationEntry {
    pub template_id: String,
    pub credential_configuration_id: String,
    pub configuration: CredentialConfigurationObject,
    pub authorization: Authorization,
}

/// The value of a registered credential configuration.
pub struct EntryValue {
    pub template_id: Seq<char>,
    pub configuration_id: Seq<char>,
    pub configuration: ConfigurationValue,
    pub authorization: AuthorizationValue,
}

impl View for ConfigurationEntry {
    type V = EntryValue;

    open spec fn view(&self) -> EntryValue {
        EntryValue {
            template_id: self.template_id@,
            configuration_id: self.credential_configuration_id@,
            configuration: self.configuration@,
            authorization: authorization_value(self.authorization),
        }
    }
}

/// The values of registered credential configurations, in order.
pub open spec fn entries_value(v: Seq<ConfigurationEntry>) -> Seq<EntryValue> {
    v.map_values(|e: ConfigurationEntry| e@)
}

/// A copy of the registered credential configurations.
pub fn copy_entries(v: &Vec<ConfigurationEntry>) -> (r: Vec<ConfigurationEntry>)
    ensures
        entries_value(r@) == entries_value(v@),
{
    let mut out: Vec<ConfigurationEntry> = Vec::new();
    let mut i: usize = 0;
    while i < v.len()
        invariant
            i <= v@.len(),
            out@.len() == i,
            entries_value(out@) == entries_value(v@.take(i as int)),
        decreases v.len() - i,
    {
        let e = &v[i];
        let ghost before = out@;
        out.push(ConfigurationEntry {
            template_id: e.template_id.clone(),
            credential_configuration_id: e.credential_configuration_id.clone(),
            configuration: copy_configuration(&e.configuration),
            authorization: copy_authorization(&e.authorization),
        });
        assert forall|k: int| 0 <= k < i + 1 implies #[trigger] entries_value(out@)[k] == entries_value(v@.take(i + 1))[k] by {
            if k < i {
                assert(entries_value(before)[k] == entries_value(v@.take(i as int))[k]);
                assert(out@[k] == before[k]);
            } else {
                assert(out@[k]@ == v@[k]@);
            }
        }
        assert(entries_value(out@) =~= entries_value(v@.take(i + 1)));
        i = i + 1;
    }
    assert(v@.take(v@.len() as int) == v@);
    out
}

/// The metadata of the authorization server: its issuer, and the rest of the document.
#[derive(Debug, PartialEq)]
pub struct AuthorizationServerMetadata {
    pub issuer: String,
    pub other: Json,
}

pub struct AuthorizationServerValue {
    pub issuer: Seq<char>,
    pub other: JsonView,
}

impl View for AuthorizationServerMetadata {
    type V = AuthorizationServerValue;

    open spec fn view(&self) -> AuthorizationServerValue {
        AuthorizationServerValue { issuer: self.issuer@, other: self.other@ }
    }
}

/// The metadata of the credential issuer: its identifier, how it is displayed, the
/// credential configurations it offers (by configuration id), and the rest of the document.
#[derive(Debug, PartialEq)]
pub struct CredentialIssuerMetadata {
    pub credential_issuer: String,
    pub display: Option<Vec<Json>>,
    pub credential_configurations_supported: Vec<(String, CredentialConfigurationObject)>,
    pub other: Json,
}

pub struct IssuerMetadataValue {
    pub credential_issuer: Seq<char>,
    pub display: Option<Seq<JsonView>>,
    pub supported: Seq<(Seq<char>, ConfigurationValue)>,
    pub other: JsonView,
}

pub open spec fn supported_value(v: Seq<(String, CredentialConfigurationObject)>) -> Seq<(Seq<char>, ConfigurationValue)> {
    v.map_values(|p: (String, CredentialConfigurationObject)| (p.0@, p.1@))
}

pub open spec fn opt_jsons_view(o: Option<Vec<Json>>) -> Option<Seq<JsonView>> {
    match o {
        Some(v) => Some(jsons_view(v@)),
        None => None,
    }
}

impl View for CredentialIssuerMetadata {
    type V = IssuerMetadataValue;

    open spec fn view(&self) -> IssuerMetadataValue {
        IssuerMetadataValue {
            credential_issuer: self.credential_issuer@,
            display: opt_jsons_view(self.display),
            supported: supported_value(self.credential_configurations_supported@),
            other: self.other@,
        }
    }
}

/// The configuration ids of listed configurations.
pub open spec fn supported_keys(s: Seq<(Seq<char>, ConfigurationValue)>) -> Seq<Seq<char>> {
    s.map_values(|p: (Seq<char>, ConfigurationValue)| p.0)
}

/// The configurations that the issuer metadata lists, keyed by configuration id: each id of
/// a registered configuration once, with the configuration first registered under it, in
/// the order the ids were first registered.
pub open spec fn supported_of(entries: Seq<EntryValue>) -> Seq<(Seq<char>, ConfigurationValue)>
    decreases entries.len(),
{
    if entries.len() == 0 {
        Seq::empty()
    } else {
        let prev = supported_of(entries.drop_last());
        let e = entries.last();
        if supported_keys(prev).contains(e.configuration_id) {
            prev
        } else {
            prev.push((e.configuration_id, e.configuration))
        }
    }
}

fn lists_key(out: &Vec<(String, CredentialConfigurationObject)>, k: &String) -> (r: bool)
    ensures
        r == supported_keys(supported_value(out@)).contains(k@),
{
    let ghost keys = supported_keys(supported_value(out@));
    let mut i: usize = 0;
    while i < out.len()
        invariant
            i <= out@.len(),
            keys == supported_keys(supported_value(out@)),
            forall|j: int| 0 <= j < i ==> keys[j] != k@,
        decreases out.len() - i,
    {
        if crate::json::str_equal(out[i].0.as_str(), k.as_str()) {
            assert(keys[i as int] == k@);
            return true;
        }
        i = i + 1;
    }
    false
}

/// The configurations that the issuer metadata lists for the registered ones, keyed by
/// configuration id.
pub fn into_credential_configurations_supported(entries: &Vec<ConfigurationEntry>) -> (r: Vec<(String, CredentialConfigurationObject)>)
    ensures
        supported_value(r@) == supported_of(entries_value(entries@)),
{
    let mut out: Vec<(String, CredentialConfigurationObject)> = Vec::new();
    let mut i: usize = 0;
    while i < entries.len()
        invariant
            i <= entries@.len(),
            supported_value(out@) == supported_of(entries_value(entries@.take(i as int))),
        decreases entries.len() - i,
    {
        let ghost before = out@;
        let ghost ev = entries_value(entries@.take(i + 1));
        assert(ev.drop_last() =~= entries_value(entries@.take(i as int)));
        assert(ev.last() == entries@[i as int]@);
        if !lists_key(&out, &entries[i].credential_configuration_id) {
            out.push((entries[i].credential_configuration_id.clone(), copy_configuration(&entries[i].configuration)));
            assert(supported_value(out@) =~= supported_value(before).push(
                (entries@[i as int].credential_configuration_id@, entries@[i as int].configuration@),
            ));
        }
        i = i + 1;
    }
    assert(entries@.take(entries@.len() as int) == entries@);
    out
}

/// A copy of the issuer metadata, listing `supported` as its configurations.
pub fn issuer_metadata_with(m: &CredentialIssuerMetadata, supported: Vec<(String, CredentialConfigurationObject)>) -> (r: CredentialIssuerMetadata)
    ensures
        r@ == (IssuerMetadataValue { supported: supported_value(supported@), ..m@ }),
{
    CredentialIssuerMetadata {
        credential_issuer: m.credential_issuer.clone(),
        display: match &m.display {
            Some(d) => Some(copy_jsons(d)),
            None => None,
        },
        credential_configurations_supported: supported,
        other: copy_json(&m.other),
    }
}

/// A copy of the issuer metadata.
pub fn copy_issuer_metadata(m: &CredentialIssuerMetadata) -> (r: CredentialIssuerMetadata)
    ensures
        r@ == m@,
{
    let v = &m.credential_configurations_supported;
    let mut out: Vec<(String, CredentialConfigurationObject)> = Vec::new();
    let mut i: usize = 0;
    while i < v.len()
        invariant
            i <= v@.len(),
            out@.len() == i,
            supported_value(out@) == supported_value(v@.take(i as int)),
        decreases v.len() - i,
    {
        let ghost before = out@;
        out.push((v[i].0.clone(), copy_configuration(&v[i].1)));
        assert forall|k: int| 0 <= k < i + 1 implies #[trigger] supported_value(out@)[k] == supported_value(v@.take(i + 1))[k] by {
            if k < i {
                assert(supported_value(before)[k] == supported_value(v@.take(i as int))[k]);
                assert(out@[k] == before[k]);
            }
        }
        assert(supported_value(out@) =~= supported_value(v@.take(i + 1)));
        i = i + 1;
    }
    assert(v@.take(v@.len() as int) == v@);
    issuer_metadata_with(m, out)
}

} // verus!
