use vstd::prelude::*;
use crate::json::{copy_json, str_equal, Json, JsonView};
use crate::server_config::command::ServerConfigCommand;
use crate::server_config::error::ServerConfigError;
use crate::server_config::event::ServerConfigEvent;
use crate::server_config::model::{
    authorization_value, copy_algorithms, copy_issuer_metadata, copy_authorization, copy_configuration, copy_entries, copy_strings,
    credential_signing_alg_values_supported, credential_signing_supported, entries_value, into_credential_configurations_supported,
    issuer_metadata_with, jsons_view, opt_jsons_view, signing_alg_name, supported_keys, supported_of,
    AuthorizationServerMetadata,
    AuthorizationServerValue, AuthorizationValue, ConfigurationEntry, ConfigurationValue, CredentialConfigurationObject,
    CredentialIssuerMetadata, EntryValue, IssuerMetadataValue, SigningAlgorithm,
};

verus! {

/// The configuration of the issuing server: the metadata it publishes, the credential
/// configurations registered for templates, and the key binding methods and signing
/// algorithms it supports.
#[derive(Debug, PartialEq)]
pub struct ServerConfig {
    pub authorization_server_metadata: AuthorizationServerMetadata,
    pub credential_issuer_metadata: CredentialIssuerMetadata,
    pub credential_configurations: Vec<ConfigurationEntry>,
    pub cryptographic_binding_methods_supported: Vec<String>,
    pub signing_algorithms_supported: Vec<SigningAlgorithm>,
}

impl Default for ServerConfig {
    fn default() -> (r: Self)
        ensures
            r.authorization_server_metadata@.issuer.len() == 0,
            r.credential_issuer_metadata@.credential_issuer.len() == 0,
            r.credential_issuer_metadata@.display is None,
            r.credential_issuer_metadata@.supported.len() == 0,
            r.credential_configurations@.len() == 0,
            r.cryptographic_binding_methods_supported@.len() == 0,
            r.signing_algorithms_supported@.len() == 0,
    {
        ServerConfig {
            authorization_server_metadata: AuthorizationServerMetadata { issuer: String::new(), other: Json::Object(Vec::new()) },
            credential_issuer_metadata: CredentialIssuerMetadata {
                credential_issuer: String::new(),
                display: None,
                credential_configurations_supported: Vec::new(),
                other: Json::Object(Vec::new()),
            },
            credential_configurations: Vec::new(),
            cryptographic_binding_methods_supported: Vec::new(),
            signing_algorithms_supported: Vec::new(),
        }
    }
}

/// Whether every algorithm can sign credentials.
pub open spec fn all_signing_supported(algs: Seq<SigningAlgorithm>) -> bool {
    forall|i: int| 0 <= i < algs.len() ==> credential_signing_supported(#[trigger] algs[i])
}

/// The advertised names of signing algorithms, in order.
pub open spec fn alg_names(algs: Seq<SigningAlgorithm>) -> Seq<Seq<char>> {
    algs.map_values(|a: SigningAlgorithm| signing_alg_name(a))
}

/// The entries, each configuration supporting the key binding methods `m`.
pub open spec fn with_binding_methods(es: Seq<EntryValue>, m: Seq<Seq<char>>) -> Seq<EntryValue> {
    es.map_values(|e: EntryValue| EntryValue { configuration: ConfigurationValue { binding_methods: m, ..e.configuration }, ..e })
}

/// The entries, each configuration signed with, and taking proofs signed with, `algs`.
pub open spec fn with_algorithms(es: Seq<EntryValue>, algs: Seq<SigningAlgorithm>) -> Seq<EntryValue> {
    es.map_values(
        |e: EntryValue|
            EntryValue {
                configuration: ConfigurationValue {
                    signing_alg_values: alg_names(algs),
                    proof_signing_algs: algs,
                    ..e.configuration
                },
                ..e
            },
    )
}

/// The position of the first entry registered for template `t`.
pub open spec fn first_with_template(es: Seq<EntryValue>, t: Seq<char>) -> Option<int> {
    if exists|i: int| 0 <= i < es.len() && es[i].template_id == t {
        Some(
            choose|i: int|
                0 <= i < es.len() && es[i].template_id == t && forall|k: int| 0 <= k < i ==> es[k].template_id != t,
        )
    } else {
        None
    }
}

/// The entries with `f` applied to the first one registered for template `t`, if any.
pub open spec fn map_first(es: Seq<EntryValue>, t: Seq<char>, f: spec_fn(EntryValue) -> EntryValue) -> Seq<EntryValue> {
    match first_with_template(es, t) {
        Some(i) => es.update(i, f(es[i])),
        None => es,
    }
}

/// The configuration that a new registration creates, from the server's key binding methods
/// and signing algorithms.
pub open spec fn new_configuration(
    c: ServerConfig,
    format: JsonView,
    display: Seq<JsonView>,
    claims: Option<JsonView>,
) -> ConfigurationValue {
    ConfigurationValue {
        format,
        binding_methods: c.cryptographic_binding_methods_supported.deep_view(),
        signing_alg_values: alg_names(c.signing_algorithms_supported@),
        proof_signing_algs: c.signing_algorithms_supported@,
        display,
        claims,
    }
}

/// The entries after registering configuration `id` with value `v` for template `t`: the
/// template's entry takes the id and value and keeps its authorization; a new template is
/// appended with authorization `a`.
pub open spec fn registered(
    es: Seq<EntryValue>,
    t: Seq<char>,
    id: Seq<char>,
    v: ConfigurationValue,
    a: AuthorizationValue,
) -> Seq<EntryValue> {
    match first_with_template(es, t) {
        Some(i) => es.update(i, EntryValue { configuration_id: id, configuration: v, ..es[i] }),
        None => es.push(EntryValue { template_id: t, configuration_id: id, configuration: v, authorization: a }),
    }
}

pub open spec fn opt_json_view(o: Option<Json>) -> Option<JsonView> {
    match o {
        Some(j) => Some(j@),
        None => None,
    }
}

/// Whether `m` is the issuer metadata of `c` listing the configurations `es`.
pub open spec fn lists(c: ServerConfig, m: CredentialIssuerMetadata, es: Seq<EntryValue>) -> bool {
    m@ == (IssuerMetadataValue { supported: supported_of(es), ..c.credential_issuer_metadata@ })
}

/// Whether `e` is the event that the server configuration `c` records for `cmd`.
pub open spec fn server_config_event_for(c: ServerConfig, cmd: ServerConfigCommand, e: ServerConfigEvent) -> bool {
    let es = entries_value(c.credential_configurations@);
    match cmd {
        ServerConfigCommand::InitializeServerMetadata {
            authorization_server_metadata,
            credential_issuer_metadata,
            cryptographic_binding_methods_supported,
            signing_algorithms_supported,
        } => e == (ServerConfigEvent::ServerMetadataInitialized {
            authorization_server_metadata,
            credential_issuer_metadata,
            cryptographic_binding_methods_supported,
            signing_algorithms_supported,
        }),
        ServerConfigCommand::UpdateIssuerUrl { url } => e matches ServerConfigEvent::IssuerUrlUpdated {
            authorization_server_metadata: a,
            credential_issuer_metadata: m,
        } && a@ == (AuthorizationServerValue { issuer: url@, ..c.authorization_server_metadata@ }) && m@ == (
        IssuerMetadataValue { credential_issuer: url@, ..c.credential_issuer_metadata@ }),
        ServerConfigCommand::UpdateIssuerDisplay { display } => e matches ServerConfigEvent::IssuerDisplayUpdated {
            credential_issuer_metadata: m,
        } && m@ == (IssuerMetadataValue { display: opt_jsons_view(display), ..c.credential_issuer_metadata@ }),
        ServerConfigCommand::UpdateCryptographicBindingMethods { cryptographic_binding_methods_supported } => e matches ServerConfigEvent::CryptographicBindingMethodsUpdated {
            cryptographic_binding_methods_supported: x,
            credential_issuer_metadata: m,
            credential_configurations: cs,
        } && x == cryptographic_binding_methods_supported && entries_value(cs@) == with_binding_methods(
            es,
            cryptographic_binding_methods_supported.deep_view(),
        ) && lists(c, m, entries_value(cs@)),
        ServerConfigCommand::UpdateSigningAlgorithms { signing_algorithms_supported } => e matches ServerConfigEvent::SigningAlgorithmsUpdated {
            signing_algorithms_supported: x,
            credential_issuer_metadata: m,
            credential_configurations: cs,
        } && x == signing_algorithms_supported && entries_value(cs@) == with_algorithms(es, signing_algorithms_supported@)
            && lists(c, m, entries_value(cs@)),
        ServerConfigCommand::CreateCredentialConfiguration {
            template_id,
            credential_configuration_id,
            credential_format_with_parameters,
            display,
            claims,
            authorization,
        } => e matches ServerConfigEvent::CredentialConfigurationCreated {
            credential_configuration_id: x,
            credential_issuer_metadata: m,
            credential_configurations: cs,
        } && x@ == credential_configuration_id@ && entries_value(cs@) == registered(
            es,
            template_id@,
            credential_configuration_id@,
            new_configuration(c, credential_format_with_parameters@, jsons_view(display@), opt_json_view(claims)),
            authorization_value(authorization),
        ) && lists(c, m, entries_value(cs@)),
        ServerConfigCommand::UpdateCredentialConfigurationId { template_id, credential_configuration_id } => e matches ServerConfigEvent::CredentialConfigurationIdUpdated {
            credential_issuer_metadata: m,
            credential_configurations: cs,
        } && entries_value(cs@) == map_first(
            es,
            template_id@,
            |x: EntryValue| EntryValue { configuration_id: credential_configuration_id@, ..x },
        ) && lists(c, m, entries_value(cs@)),
        ServerConfigCommand::UpdateCredentialConfigurationDisplay { template_id, display } => e matches ServerConfigEvent::CredentialConfigurationDisplayUpdated {
            credential_issuer_metadata: m,
            credential_configurations: cs,
        } && entries_value(cs@) == map_first(
            es,
            template_id@,
            |x: EntryValue| EntryValue { configuration: ConfigurationValue { display: seq![display@], ..x.configuration }, ..x },
        ) && lists(c, m, entries_value(cs@)),
        ServerConfigCommand::UpdateCredentialConfigurationAuthorization { template_id, authorization } => e matches ServerConfigEvent::CredentialConfigurationAuthorizationUpdated {
            credential_issuer_metadata: m,
            credential_configurations: cs,
        } && entries_value(cs@) == map_first(
            es,
            template_id@,
            |x: EntryValue| EntryValue { authorization: authorization_value(authorization), ..x },
        ) && lists(c, m, entries_value(cs@)),
        ServerConfigCommand::RemoveCredentialConfiguration { template_id } => e matches ServerConfigEvent::CredentialConfigurationRemoved {
            credential_issuer_metadata: m,
            credential_configurations: cs,
        } && entries_value(cs@) == es.filter(|x: EntryValue| x.template_id != template_id@) && lists(c, m, entries_value(cs@)),
    }
}

/// The position of the first entry registered for template `t`.
fn find_template(configs: &Vec<ConfigurationEntry>, t: &str) -> (r: Option<usize>)
    ensures
        match r {
            Some(i) => first_with_template(entries_value(configs@), t@) == Some(i as int) && i < configs@.len(),
            None => first_with_template(entries_value(configs@), t@) is None,
        },
{
    let ghost es = entries_value(configs@);
    let mut i: usize = 0;
    while i < configs.len()
        invariant
            i <= configs@.len(),
            es == entries_value(configs@),
            forall|k: int| 0 <= k < i ==> es[k].template_id != t@,
        decreases configs.len() - i,
    {
        if str_equal(configs[i].template_id.as_str(), t) {
            proof {
                assert(es[i as int].template_id == t@);
                let c = choose|j: int| 0 <= j < es.len() && es[j].template_id == t@ && forall|k: int| 0 <= k < j ==> es[k].template_id != t@;
                assert(0 <= c < es.len() && es[c].template_id == t@ && forall|k: int| 0 <= k < c ==> es[k].template_id != t@);
                if c < i {
                } else if c > i {
                    assert(es[i as int].template_id != t@);
                }
            }
            return Some(i);
        }
        i = i + 1;
    }
    None
}

/// The registered configurations with `m` as key binding methods.
fn entries_with_binding_methods(configs: &Vec<ConfigurationEntry>, m: &Vec<String>) -> (r: Vec<ConfigurationEntry>)
    ensures
        entries_value(r@) == with_binding_methods(entries_value(configs@), m.deep_view()),
{
    let mut out: Vec<ConfigurationEntry> = Vec::new();
    let mut i: usize = 0;
    while i < configs.len()
        invariant
            i <= configs@.len(),
            out@.len() == i,
            entries_value(out@) == with_binding_methods(entries_value(configs@.take(i as int)), m.deep_view()),
        decreases configs.len() - i,
    {
        let e = &configs[i];
        let c = copy_configuration(&e.configuration);
        let ghost before = out@;
        out.push(ConfigurationEntry {
            template_id: e.template_id.clone(),
            credential_configuration_id: e.credential_configuration_id.clone(),
            configuration: CredentialConfigurationObject { cryptographic_binding_methods_supported: copy_strings(m), ..c },
            authorization: copy_authorization(&e.authorization),
        });
        assert forall|k: int| 0 <= k < i + 1 implies #[trigger] entries_value(out@)[k] == with_binding_methods(
            entries_value(configs@.take(i + 1)),
            m.deep_view(),
        )[k] by {
            if k < i {
                assert(entries_value(before)[k] == with_binding_methods(entries_value(configs@.take(i as int)), m.deep_view())[k]);
                assert(out@[k] == before[k]);
            }
        }
        assert(entries_value(out@) =~= with_binding_methods(entries_value(configs@.take(i + 1)), m.deep_view()));
        i = i + 1;
    }
    assert(configs@.take(configs@.len() as int) == configs@);
    out
}

/// The registered configurations signed with, and taking proofs signed with, `algs`.
fn entries_with_algorithms(configs: &Vec<ConfigurationEntry>, algs: &Vec<SigningAlgorithm>) -> (r: Vec<ConfigurationEntry>)
    requires
        configs@.len() > 0 ==> all_signing_supported(algs@),
    ensures
        entries_value(r@) == with_algorithms(entries_value(configs@), algs@),
{
    let mut out: Vec<ConfigurationEntry> = Vec::new();
    let mut i: usize = 0;
    while i < configs.len()
        invariant
            i <= configs@.len(),
            configs@.len() > 0 ==> all_signing_supported(algs@),
            out@.len() == i,
            entries_value(out@) == with_algorithms(entries_value(configs@.take(i as int)), algs@),
        decreases configs.len() - i,
    {
        let e = &configs[i];
        let c = copy_configuration(&e.configuration);
        let names = credential_signing_alg_values_supported(algs);
        let ghost before = out@;
        out.push(ConfigurationEntry {
            template_id: e.template_id.clone(),
            credential_configuration_id: e.credential_configuration_id.clone(),
            configuration: CredentialConfigurationObject {
                credential_signing_alg_values_supported: names,
                proof_signing_alg_values_supported: copy_algorithms(algs),
                ..c
            },
            authorization: copy_authorization(&e.authorization),
        });
        assert forall|k: int| 0 <= k < i + 1 implies #[trigger] entries_value(out@)[k] == with_algorithms(
            entries_value(configs@.take(i + 1)),
            algs@,
        )[k] by {
            if k < i {
                assert(entries_value(before)[k] == with_algorithms(entries_value(configs@.take(i as int)), algs@)[k]);
                assert(out@[k] == before[k]);
            }
        }
        assert(entries_value(out@) =~= with_algorithms(entries_value(configs@.take(i + 1)), algs@));
        i = i + 1;
    }
    assert(configs@.take(configs@.len() as int) == configs@);
    out
}

/// The registered configurations but those of template `t`.
fn entries_without_template(configs: &Vec<ConfigurationEntry>, t: &str) -> (r: Vec<ConfigurationEntry>)
    ensures
        entries_value(r@) == entries_value(configs@).filter(|x: EntryValue| x.template_id != t@),
{
    let ghost es = entries_value(configs@);
    let mut out: Vec<ConfigurationEntry> = Vec::new();
    let mut i: usize = 0;
    while i < configs.len()
        invariant
            i <= configs@.len(),
            es == entries_value(configs@),
            entries_value(out@) == es.take(i as int).filter(|x: EntryValue| x.template_id != t@),
        decreases configs.len() - i,
    {
        assert(es.take(i + 1).drop_last() == es.take(i as int));
        reveal(Seq::filter);
        let e = &configs[i];
        if !str_equal(e.template_id.as_str(), t) {
            let ghost before = out@;
            out.push(ConfigurationEntry {
                template_id: e.template_id.clone(),
                credential_configuration_id: e.credential_configuration_id.clone(),
                configuration: copy_configuration(&e.configuration),
                authorization: copy_authorization(&e.authorization),
            });
            assert(entries_value(out@) =~= entries_value(before).push(es[i as int]));
        }
        i = i + 1;
    }
    assert(es.take(configs@.len() as int) == es);
    out
}

/// Replaces entry `i` of `configs`.
fn replace_entry(configs: &mut Vec<ConfigurationEntry>, i: usize, e: ConfigurationEntry)
    requires
        i < old(configs)@.len(),
    ensures
        entries_value(final(configs)@) == entries_value(old(configs)@).update(i as int, e@),
{
    let ghost before = configs@;
    configs.remove(i);
    configs.insert(i, e);
    assert(configs@ =~= before.update(i as int, e));
    assert(entries_value(configs@) =~= entries_value(before).update(i as int, e@));
}

impl ServerConfig {
    /// Decides a command against the server configuration: the event to record. The
    /// credential signing algorithms in play must be ones credentials can be signed with.
    pub fn handle(&self, command: ServerConfigCommand) -> (r: Result<Vec<ServerConfigEvent>, ServerConfigError>)
        requires
            command is CreateCredentialConfiguration ==> all_signing_supported(self.signing_algorithms_supported@),
            command matches ServerConfigCommand::UpdateSigningAlgorithms { signing_algorithms_supported: a } ==> (
            self.credential_configurations@.len() > 0 ==> all_signing_supported(a@)),
        ensures
            r matches Ok(events) && events@.len() == 1 && server_config_event_for(*self, command, events@[0]),
    {
        let event = match command {
            ServerConfigCommand::InitializeServerMetadata {
                authorization_server_metadata,
                credential_issuer_metadata,
                cryptographic_binding_methods_supported,
                signing_algorithms_supported,
            } => ServerConfigEvent::ServerMetadataInitialized {
                authorization_server_metadata,
                credential_issuer_metadata,
                cryptographic_binding_methods_supported,
                signing_algorithms_supported,
            },
            ServerConfigCommand::UpdateIssuerUrl { url } => {
                let a = AuthorizationServerMetadata {
                    issuer: url.clone(),
                    other: copy_json(&self.authorization_server_metadata.other),
                };
                let m = copy_issuer_metadata(&self.credential_issuer_metadata);
                let m = CredentialIssuerMetadata { credential_issuer: url, ..m };
                ServerConfigEvent::IssuerUrlUpdated { authorization_server_metadata: a, credential_issuer_metadata: m }
            },
            ServerConfigCommand::UpdateIssuerDisplay { display } => {
                let m = copy_issuer_metadata(&self.credential_issuer_metadata);
                ServerConfigEvent::IssuerDisplayUpdated { credential_issuer_metadata: CredentialIssuerMetadata { display, ..m } }
            },
            ServerConfigCommand::UpdateCryptographicBindingMethods { cryptographic_binding_methods_supported } => {
                let configs = entries_with_binding_methods(&self.credential_configurations, &cryptographic_binding_methods_supported);
                let m = issuer_metadata_with(&self.credential_issuer_metadata, into_credential_configurations_supported(&configs));
                ServerConfigEvent::CryptographicBindingMethodsUpdated {
                    cryptographic_binding_methods_supported,
                    credential_issuer_metadata: m,
                    credential_configurations: configs,
                }
            },
            ServerConfigCommand::UpdateSigningAlgorithms { signing_algorithms_supported } => {
                let configs = entries_with_algorithms(&self.credential_configurations, &signing_algorithms_supported);
                let m = issuer_metadata_with(&self.credential_issuer_metadata, into_credential_configurations_supported(&configs));
                ServerConfigEvent::SigningAlgorithmsUpdated {
                    signing_algorithms_supported,
                    credential_issuer_metadata: m,
                    credential_configurations: configs,
                }
            },
            ServerConfigCommand::CreateCredentialConfiguration {
                template_id,
                credential_configuration_id,
                credential_format_with_parameters,
                display,
                claims,
                authorization,
            } => {
                let object = CredentialConfigurationObject {
                    credential_format: credential_format_with_parameters,
                    cryptographic_binding_methods_supported: copy_strings(&self.cryptographic_binding_methods_supported),
                    credential_signing_alg_values_supported: credential_signing_alg_values_supported(
                        &self.signing_algorithms_supported,
                    ),
                    proof_signing_alg_values_supported: copy_algorithms(&self.signing_algorithms_supported),
                    display,
                    claims,
                };
                let mut configs = copy_entries(&self.credential_configurations);
                match find_template(&configs, template_id.as_str()) {
                    Some(i) => {
                        let existing = &configs[i];
                        let e = ConfigurationEntry {
                            template_id: existing.template_id.clone(),
                            credential_configuration_id: credential_configuration_id.clone(),
                            configuration: object,
                            authorization: copy_authorization(&existing.authorization),
                        };
                        replace_entry(&mut configs, i, e);
                    },
                    None => {
                        let ghost before = configs@;
                        configs.push(ConfigurationEntry {
                            template_id,
                            credential_configuration_id: credential_configuration_id.clone(),
                            configuration: object,
                            authorization,
                        });
                        assert(entries_value(configs@) =~= entries_value(before).push(configs@.last()@));
                    },
                }
                let m = issuer_metadata_with(&self.credential_issuer_metadata, into_credential_configurations_supported(&configs));
                ServerConfigEvent::CredentialConfigurationCreated {
                    credential_configuration_id,
                    credential_issuer_metadata: m,
                    credential_configurations: configs,
                }
            },
            ServerConfigCommand::UpdateCredentialConfigurationId { template_id, credential_configuration_id } => {
                let mut configs = copy_entries(&self.credential_configurations);
                match find_template(&configs, template_id.as_str()) {
                    Some(i) => {
                        let existing = &configs[i];
                        let e = ConfigurationEntry {
                            template_id: existing.template_id.clone(),
                            credential_configuration_id,
                            configuration: copy_configuration(&existing.configuration),
                            authorization: copy_authorization(&existing.authorization),
                        };
                        replace_entry(&mut configs, i, e);
                    },
                    None => {},
                }
                let m = issuer_metadata_with(&self.credential_issuer_metadata, into_credential_configurations_supported(&configs));
                ServerConfigEvent::CredentialConfigurationIdUpdated { credential_issuer_metadata: m, credential_configurations: configs }
            },
            ServerConfigCommand::UpdateCredentialConfigurationDisplay { template_id, display } => {
                let mut configs = copy_entries(&self.credential_configurations);
                match find_template(&configs, template_id.as_str()) {
                    Some(i) => {
                        let existing = &configs[i];
                        let mut shown: Vec<Json> = Vec::new();
                        shown.push(display);
                        let c = copy_configuration(&existing.configuration);
                        let e = ConfigurationEntry {
                            template_id: existing.template_id.clone(),
                            credential_configuration_id: existing.credential_configuration_id.clone(),
                            configuration: CredentialConfigurationObject { display: shown, ..c },
                            authorization: copy_authorization(&existing.authorization),
                        };
                        assert(jsons_view(e.configuration.display@) =~= seq![display@]);
                        replace_entry(&mut configs, i, e);
                    },
                    None => {},
                }
                let m = issuer_metadata_with(&self.credential_issuer_metadata, into_credential_configurations_supported(&configs));
                ServerConfigEvent::CredentialConfigurationDisplayUpdated { credential_issuer_metadata: m, credential_configurations: configs }
            },
            ServerConfigCommand::UpdateCredentialConfigurationAuthorization { template_id, authorization } => {
                let mut configs = copy_entries(&self.credential_configurations);
                match find_template(&configs, template_id.as_str()) {
                    Some(i) => {
                        let existing = &configs[i];
                        let e = ConfigurationEntry {
                            template_id: existing.template_id.clone(),
                            credential_configuration_id: existing.credential_configuration_id.clone(),
                            configuration: copy_configuration(&existing.configuration),
                            authorization,
                        };
                        replace_entry(&mut configs, i, e);
                    },
                    None => {},
                }
                let m = issuer_metadata_with(&self.credential_issuer_metadata, into_credential_configurations_supported(&configs));
                ServerConfigEvent::CredentialConfigurationAuthorizationUpdated {
                    credential_issuer_metadata: m,
                    credential_configurations: configs,
                }
            },
            ServerConfigCommand::RemoveCredentialConfiguration { template_id } => {
                let configs = entries_without_template(&self.credential_configurations, template_id.as_str());
                let m = issuer_metadata_with(&self.credential_issuer_metadata, into_credential_configurations_supported(&configs));
                ServerConfigEvent::CredentialConfigurationRemoved { credential_issuer_metadata: m, credential_configurations: configs }
            },
        };
        let mut events: Vec<ServerConfigEvent> = Vec::new();
        events.push(event);
        Ok(events)
    }
}

/// The server configuration after an event.
pub open spec fn server_config_applied(c: ServerConfig, e: ServerConfigEvent) -> ServerConfig {
    match e {
        ServerConfigEvent::ServerMetadataInitialized {
            authorization_server_metadata,
            credential_issuer_metadata,
            cryptographic_binding_methods_supported,
            signing_algorithms_supported,
        } => ServerConfig {
            authorization_server_metadata,
            credential_issuer_metadata,
            cryptographic_binding_methods_supported,
            signing_algorithms_supported,
            ..c
        },
        ServerConfigEvent::IssuerUrlUpdated { authorization_server_metadata, credential_issuer_metadata } => ServerConfig {
            authorization_server_metadata,
            credential_issuer_metadata,
            ..c
        },
        ServerConfigEvent::IssuerDisplayUpdated { credential_issuer_metadata } => ServerConfig { credential_issuer_metadata, ..c },
        ServerConfigEvent::CryptographicBindingMethodsUpdated {
            cryptographic_binding_methods_supported,
            credential_issuer_metadata,
            credential_configurations,
        } => ServerConfig { cryptographic_binding_methods_supported, credential_issuer_metadata, credential_configurations, ..c },
        ServerConfigEvent::SigningAlgorithmsUpdated {
            signing_algorithms_supported,
            credential_issuer_metadata,
            credential_configurations,
        } => ServerConfig { signing_algorithms_supported, credential_issuer_metadata, credential_configurations, ..c },
        ServerConfigEvent::CredentialConfigurationCreated { credential_issuer_metadata, credential_configurations, .. }
        | ServerConfigEvent::CredentialConfigurationIdUpdated { credential_issuer_metadata, credential_configurations }
        | ServerConfigEvent::CredentialConfigurationDisplayUpdated { credential_issuer_metadata, credential_configurations }
        | ServerConfigEvent::CredentialConfigurationAuthorizationUpdated { credential_issuer_metadata, credential_configurations }
        | ServerConfigEvent::CredentialConfigurationRemoved { credential_issuer_metadata, credential_configurations } => ServerConfig {
            credential_issuer_metadata,
            credential_configurations,
            ..c
        },
    }
}

impl ServerConfig {
    /// Applies an event to the server configuration.
    pub fn apply(&mut self, event: ServerConfigEvent)
        ensures
            *final(self) == server_config_applied(*old(self), event),
    {
        match event {
            ServerConfigEvent::ServerMetadataInitialized {
                authorization_server_metadata,
                credential_issuer_metadata,
                cryptographic_binding_methods_supported,
                signing_algorithms_supported,
            } => {
                self.authorization_server_metadata = authorization_server_metadata;
                self.credential_issuer_metadata = credential_issuer_metadata;
                self.cryptographic_binding_methods_supported = cryptographic_binding_methods_supported;
                self.signing_algorithms_supported = signing_algorithms_supported;
            },
            ServerConfigEvent::IssuerUrlUpdated { authorization_server_metadata, credential_issuer_metadata } => {
                self.authorization_server_metadata = authorization_server_metadata;
                self.credential_issuer_metadata = credential_issuer_metadata;
            },
            ServerConfigEvent::IssuerDisplayUpdated { credential_issuer_metadata } => {
                self.credential_issuer_metadata = credential_issuer_metadata;
            },
            ServerConfigEvent::CryptographicBindingMethodsUpdated {
                cryptographic_binding_methods_supported,
                credential_issuer_metadata,
                credential_configurations,
            } => {
                self.cryptographic_binding_methods_supported = cryptographic_binding_methods_supported;
                self.credential_issuer_metadata = credential_issuer_metadata;
                self.credential_configurations = credential_configurations;
            },
            ServerConfigEvent::SigningAlgorithmsUpdated {
                signing_algorithms_supported,
                credential_issuer_metadata,
                credential_configurations,
            } => {
                self.signing_algorithms_supported = signing_algorithms_supported;
                self.credential_issuer_metadata = credential_issuer_metadata;
                self.credential_configurations = credential_configurations;
            },
            ServerConfigEvent::CredentialConfigurationCreated { credential_issuer_metadata, credential_configurations, .. } => {
                self.credential_issuer_metadata = credential_issuer_metadata;
                self.credential_configurations = credential_configurations;
            },
            ServerConfigEvent::CredentialConfigurationIdUpdated { credential_issuer_metadata, credential_configurations } => {
                self.credential_issuer_metadata = credential_issuer_metadata;
                self.credential_configurations = credential_configurations;
            },
            ServerConfigEvent::CredentialConfigurationDisplayUpdated { credential_issuer_metadata, credential_configurations } => {
                self.credential_issuer_metadata = credential_issuer_metadata;
                self.credential_configurations = credential_configurations;
            },
            ServerConfigEvent::CredentialConfigurationAuthorizationUpdated { credential_issuer_metadata, credential_configurations } => {
                self.credential_issuer_metadata = credential_issuer_metadata;
                self.credential_configurations = credential_configurations;
            },
            ServerConfigEvent::CredentialConfigurationRemoved { credential_issuer_metadata, credential_configurations } => {
                self.credential_issuer_metadata = credential_issuer_metadata;
                self.credential_configurations = credential_configurations;
            },
        }
    }
}

/// After any decided event is applied, the issuer metadata lists exactly the registered
/// configurations, each under its configuration id, when it did before.
pub proof fn lemma_metadata_lists_configurations(c: ServerConfig, cmd: ServerConfigCommand, e: ServerConfigEvent)
    requires
        !(cmd is InitializeServerMetadata),
        c.credential_issuer_metadata@.supported == supported_of(entries_value(c.credential_configurations@)),
        server_config_event_for(c, cmd, e),
    ensures
        server_config_applied(c, e).credential_issuer_metadata@.supported == supported_of(
            entries_value(server_config_applied(c, e).credential_configurations@),
        ),
{
}

/// Whether entry `i` is the first one registered under configuration id `id`.
pub open spec fn first_with_id(es: Seq<EntryValue>, id: Seq<char>, i: int) -> bool {
    &&& 0 <= i < es.len()
    &&& es[i].configuration_id == id
    &&& forall|j: int| 0 <= j < i ==> es[j].configuration_id != id
}

/// Whether `listed` is an id with the configuration first registered under it.
pub open spec fn first_registered(es: Seq<EntryValue>, listed: (Seq<char>, ConfigurationValue)) -> bool {
    exists|i: int| #[trigger] first_with_id(es, listed.0, i) && es[i].configuration == listed.1
}

/// The issuer metadata lists the registered configurations keyed by configuration id: no id
/// twice, exactly the ids registered, each with the configuration first registered under it.
pub proof fn lemma_metadata_keyed_by_configuration_id(es: Seq<EntryValue>)
    ensures
        forall|a: int, b: int|
            0 <= a < b < supported_of(es).len() ==> #[trigger] supported_of(es)[a].0 != #[trigger] supported_of(es)[b].0,
        forall|id: Seq<char>|
            supported_keys(supported_of(es)).contains(id) <==> exists|i: int|
                0 <= i < es.len() && #[trigger] es[i].configuration_id == id,
        forall|k: int| 0 <= k < supported_of(es).len() ==> first_registered(es, #[trigger] supported_of(es)[k]),
    decreases es.len(),
{
    if es.len() > 0 {
        let d = es.drop_last();
        let e = es.last();
        let p = supported_of(d);
        let s = supported_of(es);
        lemma_metadata_keyed_by_configuration_id(d);
        assert forall|i: int| 0 <= i < d.len() implies #[trigger] d[i] == es[i] by {}
        let added = !supported_keys(p).contains(e.configuration_id);
        if added {
            assert(s == p.push((e.configuration_id, e.configuration)));
        } else {
            assert(s == p);
        }
        assert forall|a: int, b: int| 0 <= a < b < s.len() implies #[trigger] s[a].0 != #[trigger] s[b].0 by {
            if added && b == p.len() {
                assert(supported_keys(p)[a] == p[a].0);
                assert(s[a] == p[a]);
            } else {
                assert(s[a] == p[a] && s[b] == p[b]);
            }
        }
        assert forall|id: Seq<char>|
            supported_keys(s).contains(id) <==> exists|i: int| 0 <= i < es.len() && #[trigger] es[i].configuration_id == id by {
            if supported_keys(s).contains(id) {
                let k = choose|k: int| 0 <= k < supported_keys(s).len() && supported_keys(s)[k] == id;
                if added && k == p.len() {
                    assert(es[es.len() - 1].configuration_id == id);
                } else {
                    assert(supported_keys(p)[k] == id);
                    assert(supported_keys(p).contains(id));
                    let i = choose|i: int| 0 <= i < d.len() && #[trigger] d[i].configuration_id == id;
                    assert(es[i].configuration_id == id);
                }
            }
            if exists|i: int| 0 <= i < es.len() && #[trigger] es[i].configuration_id == id {
                let i = choose|i: int| 0 <= i < es.len() && #[trigger] es[i].configuration_id == id;
                if i < d.len() {
                    assert(d[i].configuration_id == id);
                    assert(supported_keys(p).contains(id));
                    let k = choose|k: int| 0 <= k < supported_keys(p).len() && supported_keys(p)[k] == id;
                    assert(supported_keys(s)[k] == id);
                } else if added {
                    assert(supported_keys(s)[p.len() as int] == id);
                } else {
                    assert(supported_keys(p).contains(id));
                    let k = choose|k: int| 0 <= k < supported_keys(p).len() && supported_keys(p)[k] == id;
                    assert(supported_keys(s)[k] == id);
                }
            }
        }
        assert forall|k: int| 0 <= k < s.len() implies first_registered(es, #[trigger] s[k]) by {
            if added && k == p.len() {
                let i = es.len() - 1;
                assert forall|j: int| 0 <= j < i implies es[j].configuration_id != e.configuration_id by {
                    if es[j].configuration_id == e.configuration_id {
                        assert(d[j].configuration_id == e.configuration_id);
                        assert(supported_keys(p).contains(e.configuration_id));
                    }
                }
                assert(first_with_id(es, s[k].0, i));
                assert(first_registered(es, s[k]));
            } else {
                assert(s[k] == p[k]);
                assert(first_registered(d, p[k]));
                let i = choose|i: int| #[trigger] first_with_id(d, p[k].0, i) && d[i].configuration == p[k].1;
                assert forall|j: int| 0 <= j < i implies es[j].configuration_id != p[k].0 by {
                    assert(d[j] == es[j]);
                }
                assert(d[i] == es[i]);
                assert(first_with_id(es, s[k].0, i));
                assert(first_registered(es, s[k]));
            }
        }
    }
}

/// Changing the issuer URL moves both metadata documents to it: after the decided event is
/// applied, the authorization server's issuer and the credential issuer are the new URL, and
/// everything else in them, and the registered configurations, is unchanged.
pub proof fn lemma_issuer_url_update_moves_both_issuers(c: ServerConfig, url: String, e: ServerConfigEvent)
    requires
        server_config_event_for(c, ServerConfigCommand::UpdateIssuerUrl { url }, e),
    ensures
        server_config_applied(c, e).authorization_server_metadata@.issuer == url@,
        server_config_applied(c, e).credential_issuer_metadata@.credential_issuer == url@,
        server_config_applied(c, e).authorization_server_metadata@.other == c.authorization_server_metadata@.other,
        server_config_applied(c, e).credential_issuer_metadata@.display == c.credential_issuer_metadata@.display,
        server_config_applied(c, e).credential_issuer_metadata@.supported == c.credential_issuer_metadata@.supported,
        server_config_applied(c, e).credential_configurations == c.credential_configurations,
{
}

/// Server-wide settings take effect once their event is applied: a new issuer display is
/// the one shown; new key binding methods or signing algorithms are the server's and reach
/// every registered configuration, which otherwise stay as they were.
pub proof fn lemma_server_settings_take_effect(c: ServerConfig, cmd: ServerConfigCommand, e: ServerConfigEvent)
    requires
        server_config_event_for(c, cmd, e),
    ensures
        cmd matches ServerConfigCommand::UpdateIssuerDisplay { display } ==> server_config_applied(
            c,
            e,
        ).credential_issuer_metadata@.display == opt_jsons_view(display),
        cmd matches ServerConfigCommand::UpdateCryptographicBindingMethods { cryptographic_binding_methods_supported: m }
            ==> {
            let a = server_config_applied(c, e);
            &&& a.cryptographic_binding_methods_supported == m
            &&& a.credential_configurations@.len() == c.credential_configurations@.len()
            &&& forall|k: int|
                0 <= k < a.credential_configurations@.len() ==> {
                    &&& (#[trigger] entries_value(a.credential_configurations@)[k]).configuration.binding_methods
                        == m.deep_view()
                    &&& entries_value(a.credential_configurations@)[k].template_id == entries_value(
                        c.credential_configurations@,
                    )[k].template_id
                    &&& entries_value(a.credential_configurations@)[k].configuration_id == entries_value(
                        c.credential_configurations@,
                    )[k].configuration_id
                }
        },
        cmd matches ServerConfigCommand::UpdateSigningAlgorithms { signing_algorithms_supported: g } ==> {
            let a = server_config_applied(c, e);
            &&& a.signing_algorithms_supported == g
            &&& a.credential_configurations@.len() == c.credential_configurations@.len()
            &&& forall|k: int|
                0 <= k < a.credential_configurations@.len() ==> {
                    &&& (#[trigger] entries_value(a.credential_configurations@)[k]).configuration.proof_signing_algs
                        == g@
                    &&& entries_value(a.credential_configurations@)[k].template_id == entries_value(
                        c.credential_configurations@,
                    )[k].template_id
                }
        },
{
    match cmd {
        ServerConfigCommand::UpdateCryptographicBindingMethods { .. } | ServerConfigCommand::UpdateSigningAlgorithms {
            ..
        } => {
            let a = server_config_applied(c, e);
            assert(entries_value(a.credential_configurations@).len() == a.credential_configurations@.len());
            assert(entries_value(c.credential_configurations@).len() == c.credential_configurations@.len());
        },
        _ => {},
    }
}

/// Removing the configuration of a template leaves none registered for it.
pub proof fn lemma_removal_leaves_no_configuration(c: ServerConfig, cmd: ServerConfigCommand, e: ServerConfigEvent)
    requires
        cmd is RemoveCredentialConfiguration,
        server_config_event_for(c, cmd, e),
    ensures
        cmd matches ServerConfigCommand::RemoveCredentialConfiguration { template_id } && first_with_template(
            entries_value(server_config_applied(c, e).credential_configurations@),
            template_id@,
        ) is None,
{
    match cmd {
        ServerConfigCommand::RemoveCredentialConfiguration { template_id } => {
            let es = entries_value(server_config_applied(c, e).credential_configurations@);
            let t = template_id@;
            assert forall|i: int| 0 <= i < es.len() implies es[i].template_id != t by {
                let f = entries_value(c.credential_configurations@).filter(|x: EntryValue| x.template_id != t);
                assert(es == f);
                assert(f.contains(es[i]));
            }
        },
        _ => {},
    }
}

/// The first entry registered for template `t`, when entry `w` is.
pub open spec fn is_first_with_template(es: Seq<EntryValue>, t: Seq<char>, i: int) -> bool {
    0 <= i < es.len() && es[i].template_id == t && forall|k: int| 0 <= k < i ==> es[k].template_id != t
}

/// When entry `w` is registered for template `t`, a first entry is.
pub proof fn lemma_first_with_template(es: Seq<EntryValue>, t: Seq<char>, w: int)
    requires
        0 <= w < es.len(),
        es[w].template_id == t,
    ensures
        first_with_template(es, t) is Some,
        is_first_with_template(es, t, first_with_template(es, t)->0),
    decreases w,
{
    if exists|k: int| 0 <= k < w && es[k].template_id == t {
        let k = choose|k: int| 0 <= k < w && es[k].template_id == t;
        lemma_first_with_template(es, t, k);
    } else {
        assert(is_first_with_template(es, t, w));
    }
}

proof fn lemma_registered_found(es: Seq<EntryValue>, t: Seq<char>, id: Seq<char>, v: ConfigurationValue, a: AuthorizationValue)
    ensures
        first_with_template(registered(es, t, id, v, a), t) matches Some(i) && registered(es, t, id, v, a)[i].configuration_id == id,
{
    let ns = registered(es, t, id, v, a);
    if exists|i: int| 0 <= i < es.len() && es[i].template_id == t {
        let w = choose|i: int| 0 <= i < es.len() && es[i].template_id == t;
        lemma_first_with_template(es, t, w);
    }
    let pos: int = match first_with_template(es, t) {
        Some(i) => i,
        None => es.len() as int,
    };
    assert(ns[pos].template_id == t && ns[pos].configuration_id == id);
    assert forall|k: int| 0 <= k < pos implies ns[k].template_id != t by {
        assert(ns[k] == es[k]);
        if first_with_template(es, t) is None {
            assert(es[k].template_id != t);
        }
    }
    let j = choose|j: int| 0 <= j < ns.len() && ns[j].template_id == t && forall|k: int| 0 <= k < j ==> ns[k].template_id != t;
    assert(0 <= j < ns.len() && ns[j].template_id == t && forall|k: int| 0 <= k < j ==> ns[k].template_id != t);
    if j < pos {
        assert(ns[j].template_id != t);
    } else if j > pos {
        assert(ns[pos].template_id != t);
    }
}

/// Registering a configuration for a template leaves one registered for it, with the given
/// id.
pub proof fn lemma_registration_is_found(c: ServerConfig, cmd: ServerConfigCommand, e: ServerConfigEvent)
    requires
        cmd is CreateCredentialConfiguration,
        server_config_event_for(c, cmd, e),
    ensures
        cmd matches ServerConfigCommand::CreateCredentialConfiguration { template_id, credential_configuration_id, .. }
            && first_with_template(entries_value(server_config_applied(c, e).credential_configurations@), template_id@) matches Some(i)
            && entries_value(server_config_applied(c, e).credential_configurations@)[i].configuration_id == credential_configuration_id@,
{
    match cmd {
        ServerConfigCommand::CreateCredentialConfiguration {
            template_id,
            credential_configuration_id,
            credential_format_with_parameters,
            display,
            claims,
            authorization,
        } => {
            lemma_registered_found(
                entries_value(c.credential_configurations@),
                template_id@,
                credential_configuration_id@,
                new_configuration(c, credential_format_with_parameters@, jsons_view(display@), opt_json_view(claims)),
                authorization_value(authorization),
            );
        },
        _ => {},
    }
}

} // verus!
