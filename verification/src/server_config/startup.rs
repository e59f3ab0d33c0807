use vstd::prelude::*;
use crate::json::{json_equal, view_members, Json, JsonView};
use crate::server_config::aggregate::ServerConfig;
use crate::server_config::command::ServerConfigCommand;
use crate::server_config::model::{
    jsons_view, opt_jsons_view, AuthorizationServerMetadata, CredentialIssuerMetadata, SigningAlgorithm,
};
use crate::text::{sort_strings, sorted_text};

verus! {

fn strings_equal(a: &Vec<String>, b: &Vec<String>) -> (r: bool)
    ensures
        r == (a.deep_view() == b.deep_view()),
{
    if a.len() != b.len() {
        assert(a.deep_view().len() != b.deep_view().len());
        return false;
    }
    let mut i: usize = 0;
    while i < a.len()
        invariant
            i <= a@.len(),
            a@.len() == b@.len(),
            forall|k: int| 0 <= k < i ==> a.deep_view()[k] == b.deep_view()[k],
        decreases a.len() - i,
    {
        if !crate::json::str_equal(a[i].as_str(), b[i].as_str()) {
            assert(a.deep_view()[i as int] != b.deep_view()[i as int]);
            return false;
        }
        i = i + 1;
    }
    assert(a.deep_view() =~= b.deep_view());
    true
}

fn algorithms_equal(a: &Vec<SigningAlgorithm>, b: &Vec<SigningAlgorithm>) -> (r: bool)
    ensures
        r == (a@ == b@),
{
    if a.len() != b.len() {
        return false;
    }
    let mut i: usize = 0;
    while i < a.len()
        invariant
            i <= a@.len(),
            a@.len() == b@.len(),
            forall|k: int| 0 <= k < i ==> a@[k] == b@[k],
        decreases a.len() - i,
    {
        if a[i] != b[i] {
            return false;
        }
        i = i + 1;
    }
    assert(a@ =~= b@);
    true
}

fn jsons_equal(a: &Vec<Json>, b: &Vec<Json>) -> (r: bool)
    ensures
        r == (jsons_view(a@) == jsons_view(b@)),
{
    if a.len() != b.len() {
        assert(jsons_view(a@).len() != jsons_view(b@).len());
        return false;
    }
    let mut i: usize = 0;
    while i < a.len()
        invariant
            i <= a@.len(),
            a@.len() == b@.len(),
            forall|k: int| 0 <= k < i ==> a@[k]@ == b@[k]@,
        decreases a.len() - i,
    {
        if !json_equal(&a[i], &b[i]) {
            assert(jsons_view(a@)[i as int] != jsons_view(b@)[i as int]);
            return false;
        }
        i = i + 1;
    }
    assert(jsons_view(a@) =~= jsons_view(b@));
    true
}

/// The commands that bring existing server metadata in line with the configured public URL
/// and issuer display: the issuer URL is always set again; the display only when it differs.
pub fn issuer_metadata_updates(view: &ServerConfig, public_url: String, display: Option<Vec<Json>>) -> (r: Vec<ServerConfigCommand>)
    ensures
        r@.len() >= 1,
        r@[0] == (ServerConfigCommand::UpdateIssuerUrl { url: public_url }),
        opt_jsons_view(display) == view.credential_issuer_metadata@.display ==> r@.len() == 1,
        opt_jsons_view(display) != view.credential_issuer_metadata@.display ==> r@.len() == 2 && r@[1] == (
        ServerConfigCommand::UpdateIssuerDisplay { display }),
{
    let same = match (&display, &view.credential_issuer_metadata.display) {
        (Some(a), Some(b)) => jsons_equal(a, b),
        (None, None) => true,
        _ => false,
    };
    let mut commands: Vec<ServerConfigCommand> = Vec::new();
    commands.push(ServerConfigCommand::UpdateIssuerUrl { url: public_url });
    if !same {
        commands.push(ServerConfigCommand::UpdateIssuerDisplay { display });
    }
    commands
}

/// The command that makes the server support the enabled DID methods, sorted, as key binding
/// methods; none when it already does.
pub fn binding_methods_update(view: &ServerConfig, enabled_did_methods: Vec<String>) -> (r: Option<ServerConfigCommand>)
    ensures
        view.cryptographic_binding_methods_supported.deep_view() == sorted_text(enabled_did_methods.deep_view()) ==> r is None,
        view.cryptographic_binding_methods_supported.deep_view() != sorted_text(enabled_did_methods.deep_view()) ==> (r matches Some(
            ServerConfigCommand::UpdateCryptographicBindingMethods { cryptographic_binding_methods_supported: m },
        ) && m.deep_view() == sorted_text(enabled_did_methods.deep_view())),
{
    let methods = sort_strings(enabled_did_methods);
    if strings_equal(&view.cryptographic_binding_methods_supported, &methods) {
        None
    } else {
        Some(ServerConfigCommand::UpdateCryptographicBindingMethods { cryptographic_binding_methods_supported: methods })
    }
}

/// The command that makes the server support the enabled signing algorithms; none when it
/// already does.
pub fn signing_algorithms_update(view: &ServerConfig, enabled: Vec<SigningAlgorithm>) -> (r: Option<ServerConfigCommand>)
    ensures
        view.signing_algorithms_supported@ == enabled@ ==> r is None,
        view.signing_algorithms_supported@ != enabled@ ==> r == Some(
            ServerConfigCommand::UpdateSigningAlgorithms { signing_algorithms_supported: enabled },
        ),
{
    if algorithms_equal(&view.signing_algorithms_supported, &enabled) {
        None
    } else {
        Some(ServerConfigCommand::UpdateSigningAlgorithms { signing_algorithms_supported: enabled })
    }
}

/// The endpoints of the agent: authorization, token and pushed authorization request
/// endpoints of the authorization server, and credential and nonce endpoints of the
/// credential issuer.
#[derive(Debug, Clone, PartialEq, Eq)]
pub struct ServerEndpoints {
    pub authorization: String,
    pub token: String,
    pub pushed_authorization_request: String,
    pub credential: String,
    pub nonce: String,
}

/// `path` appended to the URL `base`, with one `/` between them.
pub open spec fn joined(base: Seq<char>, path: Seq<char>) -> Seq<char> {
    if base.len() > 0 && base.last() == '/' {
        base + path
    } else {
        base + seq!['/'] + path
    }
}

/// The endpoints of an agent at `public_url`.
pub open spec fn endpoints_at(public_url: Seq<char>) -> (Seq<char>, Seq<char>, Seq<char>, Seq<char>, Seq<char>) {
    (
        joined(public_url, "auth/authorize"@),
        joined(public_url, "auth/token"@),
        joined(public_url, "auth/par"@),
        joined(public_url, "openid4vci/credential"@),
        joined(public_url, "openid4vci/nonce"@),
    )
}

/// Whether `e` are the endpoints of an agent at `public_url`.
pub open spec fn endpoints_of(e: ServerEndpoints, public_url: Seq<char>) -> bool {
    (e.authorization@, e.token@, e.pushed_authorization_request@, e.credential@, e.nonce@) == endpoints_at(public_url)
}

fn join_path(base: &str, path: &str) -> (r: String)
    ensures
        r@ == joined(base@, path@),
{
    proof { reveal_strlit("/"); }
    let n = base.unicode_len();
    if n > 0 && base.get_char(n - 1) == '/' {
        String::from_str(base).concat(path)
    } else {
        String::from_str(base).concat("/").concat(path)
    }
}

/// The endpoints of an agent at `public_url`: each endpoint's path appended to it.
pub fn server_endpoints(public_url: &str) -> (r: ServerEndpoints)
    ensures
        endpoints_of(r, public_url@),
{
    ServerEndpoints {
        authorization: join_path(public_url, "auth/authorize"),
        token: join_path(public_url, "auth/token"),
        pushed_authorization_request: join_path(public_url, "auth/par"),
        credential: join_path(public_url, "openid4vci/credential"),
        nonce: join_path(public_url, "openid4vci/nonce"),
    }
}

/// The authorization server metadata besides its issuer. With the interactive authorization
/// flow, the pushed authorization request endpoint is also the interactive authorization
/// endpoint and interactive requests are required; without it, pushed authorization requests
/// are required. Settings that are not made are left out.
pub open spec fn authorization_server_members(e: ServerEndpoints, interactive: bool) -> Seq<(Seq<char>, JsonView)> {
    let base = seq![
        ("authorization_endpoint"@, JsonView::Str(e.authorization@)),
        ("token_endpoint"@, JsonView::Str(e.token@)),
        ("pushed_authorization_request_endpoint"@, JsonView::Str(e.pushed_authorization_request@)),
    ];
    if interactive {
        base + seq![
            ("interactive_authorization_endpoint"@, JsonView::Str(e.pushed_authorization_request@)),
            ("require_interactive_authorization_request"@, JsonView::Bool(true)),
        ]
    } else {
        base + seq![("require_pushed_authorization_requests"@, JsonView::Bool(true))]
    }
}

/// The credential issuer metadata besides its identifier, display and configurations.
pub open spec fn credential_issuer_members(e: ServerEndpoints) -> Seq<(Seq<char>, JsonView)> {
    seq![("credential_endpoint"@, JsonView::Str(e.credential@)), ("nonce_endpoint"@, JsonView::Str(e.nonce@))]
}

/// The command that initializes the server metadata of an agent at `public_url`.
pub open spec fn initialization_spec(
    public_url: String,
    display: Option<Vec<Json>>,
    enabled_did_methods: Seq<Seq<char>>,
    algorithms: Vec<SigningAlgorithm>,
    interactive: bool,
    r: ServerConfigCommand,
) -> bool {
    &&& exists|endpoints: ServerEndpoints|
        #![trigger endpoints_of(endpoints, public_url@)]
        endpoints_of(endpoints, public_url@) && metadata_initialized(
            public_url,
            display,
            enabled_did_methods,
            algorithms,
            interactive,
            endpoints,
            r,
        )
}

/// `r` initializes the metadata of an agent at `public_url` with the endpoints `endpoints`.
pub open spec fn metadata_initialized(
    public_url: String,
    display: Option<Vec<Json>>,
    enabled_did_methods: Seq<Seq<char>>,
    algorithms: Vec<SigningAlgorithm>,
    interactive: bool,
    endpoints: ServerEndpoints,
    r: ServerConfigCommand,
) -> bool {
    &&& r matches ServerConfigCommand::InitializeServerMetadata {
        authorization_server_metadata: a,
        credential_issuer_metadata: m,
        cryptographic_binding_methods_supported: b,
        signing_algorithms_supported: s,
    }
    &&& a.issuer == public_url
    &&& a.other@ == JsonView::Object(authorization_server_members(endpoints, interactive))
    &&& m.credential_issuer == public_url
    &&& m.display == display
    &&& m.credential_configurations_supported@.len() == 0
    &&& m.other@ == JsonView::Object(credential_issuer_members(endpoints))
    &&& b.deep_view() == sorted_text(enabled_did_methods)
    &&& s == algorithms
}

fn push_member(ms: &mut Vec<(String, Json)>, key: &str, value: Json)
    ensures
        view_members(final(ms)@) == view_members(old(ms)@).push((key@, value@)),
{
    let ghost before = ms@;
    ms.push((String::from_str(key), value));
    assert(ms@.drop_last() == before);
}

/// The command that initializes the server metadata when there is none yet: the issuer is
/// `public_url`, the endpoints are its endpoint paths appended to it, the issuer display is
/// `display`, the enabled DID methods, sorted, are the key binding methods, and `algorithms`
/// are the signing algorithms.
pub fn initialization_command(
    public_url: String,
    display: Option<Vec<Json>>,
    enabled_did_methods: Vec<String>,
    algorithms: Vec<SigningAlgorithm>,
    interactive: bool,
) -> (r: ServerConfigCommand)
    ensures
        initialization_spec(public_url, display, enabled_did_methods.deep_view(), algorithms, interactive, r),
{
    let ghost (public_url_copy, display_copy, dids, algorithms_copy) = (
        public_url,
        display,
        enabled_did_methods.deep_view(),
        algorithms,
    );
    let endpoints = server_endpoints(public_url.as_str());
    let ghost e = endpoints;
    let mut a: Vec<(String, Json)> = Vec::new();
    assert(view_members(a@) == Seq::<(Seq<char>, JsonView)>::empty());
    push_member(&mut a, "authorization_endpoint", Json::Str(endpoints.authorization.clone()));
    push_member(&mut a, "token_endpoint", Json::Str(endpoints.token.clone()));
    push_member(
        &mut a,
        "pushed_authorization_request_endpoint",
        Json::Str(endpoints.pushed_authorization_request.clone()),
    );
    if interactive {
        push_member(
            &mut a,
            "interactive_authorization_endpoint",
            Json::Str(endpoints.pushed_authorization_request.clone()),
        );
        push_member(&mut a, "require_interactive_authorization_request", Json::Bool(true));
    } else {
        push_member(&mut a, "require_pushed_authorization_requests", Json::Bool(true));
    }
    assert(view_members(a@) =~= authorization_server_members(e, interactive));
    let mut m: Vec<(String, Json)> = Vec::new();
    assert(view_members(m@) == Seq::<(Seq<char>, JsonView)>::empty());
    push_member(&mut m, "credential_endpoint", Json::Str(endpoints.credential.clone()));
    push_member(&mut m, "nonce_endpoint", Json::Str(endpoints.nonce.clone()));
    assert(view_members(m@) =~= credential_issuer_members(e));
    let r = ServerConfigCommand::InitializeServerMetadata {
        authorization_server_metadata: AuthorizationServerMetadata { issuer: public_url.clone(), other: Json::Object(a) },
        credential_issuer_metadata: CredentialIssuerMetadata {
            credential_issuer: public_url,
            display,
            credential_configurations_supported: Vec::new(),
            other: Json::Object(m),
        },
        cryptographic_binding_methods_supported: sort_strings(enabled_did_methods),
        signing_algorithms_supported: algorithms,
    };
    assert(metadata_initialized(public_url_copy, display_copy, dids, algorithms_copy, interactive, e, r));
    r
}

} // verus!
