use ssi_agent::json::Json;
use ssi_agent::server_config::aggregate::ServerConfig;
use ssi_agent::server_config::command::ServerConfigCommand;
use ssi_agent::server_config::event::ServerConfigEvent;
use ssi_agent::server_config::model::{AuthorizationServerMetadata, CredentialIssuerMetadata, SigningAlgorithm};
use ssi_agent::server_config::startup::{
    binding_methods_update, initialization_command, issuer_metadata_updates, server_endpoints, signing_algorithms_update,
};
use ssi_agent::template::types::Authorization;

fn issuer_url() -> String {
    "https://my-domain.example.org/".to_string()
}

fn initialized() -> ServerConfig {
    let mut c = ServerConfig::default();
    let events = c
        .handle(ServerConfigCommand::InitializeServerMetadata {
            authorization_server_metadata: AuthorizationServerMetadata { issuer: issuer_url(), other: Json::Object(vec![]) },
            credential_issuer_metadata: CredentialIssuerMetadata {
                credential_issuer: issuer_url(),
                display: None,
                credential_configurations_supported: vec![],
                other: Json::Object(vec![]),
            },
            cryptographic_binding_methods_supported: vec!["did:jwk".to_string(), "did:key".to_string()],
            signing_algorithms_supported: vec![SigningAlgorithm::ES256, SigningAlgorithm::EdDSA],
        })
        .unwrap();
    for e in events {
        c.apply(e);
    }
    c
}

fn format() -> Json {
    Json::Object(vec![("format".to_string(), Json::Str("vc+sd-jwt".to_string()))])
}

fn register(c: &mut ServerConfig, template_id: &str, configuration_id: &str) {
    let events = c
        .handle(ServerConfigCommand::CreateCredentialConfiguration {
            template_id: template_id.to_string(),
            credential_configuration_id: configuration_id.to_string(),
            credential_format_with_parameters: format(),
            display: vec![Json::Str("My Credential".to_string())],
            claims: None,
            authorization: Authorization { pre_authorized: true, tx_code_constraints: None },
        })
        .unwrap();
    for e in events {
        c.apply(e);
    }
}

#[test]
fn test_load_server_metadata() {
    let c = initialized();
    assert_eq!(c.authorization_server_metadata.issuer, issuer_url());
    assert_eq!(c.cryptographic_binding_methods_supported, vec!["did:jwk".to_string(), "did:key".to_string()]);
    assert_eq!(c.signing_algorithms_supported, vec![SigningAlgorithm::ES256, SigningAlgorithm::EdDSA]);
}

#[test]
fn registration_uses_the_server_settings_and_is_listed() {
    let mut c = initialized();
    register(&mut c, "my-template", "001");
    assert_eq!(c.credential_configurations.len(), 1);
    let entry = &c.credential_configurations[0];
    assert_eq!(entry.template_id, "my-template");
    assert_eq!(entry.credential_configuration_id, "001");
    assert_eq!(entry.configuration.credential_signing_alg_values_supported, vec!["ES256".to_string(), "EdDSA".to_string()]);
    assert_eq!(entry.configuration.cryptographic_binding_methods_supported, vec!["did:jwk".to_string(), "did:key".to_string()]);
    assert!(entry.authorization.pre_authorized);
    let listed = &c.credential_issuer_metadata.credential_configurations_supported;
    assert_eq!(listed.len(), 1);
    assert_eq!(listed[0].0, "001");

    register(&mut c, "my-template", "002");
    assert_eq!(c.credential_configurations.len(), 1);
    assert_eq!(c.credential_configurations[0].credential_configuration_id, "002");
}

#[test]
fn algorithm_and_binding_updates_reach_every_configuration() {
    let mut c = initialized();
    register(&mut c, "a", "001");
    register(&mut c, "b", "002");
    let events = c
        .handle(ServerConfigCommand::UpdateSigningAlgorithms { signing_algorithms_supported: vec![SigningAlgorithm::EdDSA] })
        .unwrap();
    for e in events {
        c.apply(e);
    }
    for entry in &c.credential_configurations {
        assert_eq!(entry.configuration.credential_signing_alg_values_supported, vec!["EdDSA".to_string()]);
        assert_eq!(entry.configuration.proof_signing_alg_values_supported, vec![SigningAlgorithm::EdDSA]);
    }
    let events = c
        .handle(ServerConfigCommand::UpdateCryptographicBindingMethods {
            cryptographic_binding_methods_supported: vec!["jwk".to_string()],
        })
        .unwrap();
    for e in events {
        c.apply(e);
    }
    assert_eq!(c.cryptographic_binding_methods_supported, vec!["jwk".to_string()]);
    assert_eq!(c.credential_issuer_metadata.credential_configurations_supported[1].1.cryptographic_binding_methods_supported, vec!["jwk".to_string()]);
}

#[test]
fn removal_and_issuer_url() {
    let mut c = initialized();
    register(&mut c, "a", "001");
    register(&mut c, "b", "002");
    let events = c.handle(ServerConfigCommand::RemoveCredentialConfiguration { template_id: "a".to_string() }).unwrap();
    assert_eq!(events[0].event_type(), "CredentialConfigurationRemoved");
    for e in events {
        c.apply(e);
    }
    assert_eq!(c.credential_configurations.len(), 1);
    assert_eq!(c.credential_configurations[0].template_id, "b");
    let events = c.handle(ServerConfigCommand::UpdateIssuerUrl { url: "https://other.example.org/".to_string() }).unwrap();
    match &events[0] {
        ServerConfigEvent::IssuerUrlUpdated { authorization_server_metadata, credential_issuer_metadata } => {
            assert_eq!(authorization_server_metadata.issuer, "https://other.example.org/");
            assert_eq!(credential_issuer_metadata.credential_issuer, "https://other.example.org/");
            assert_eq!(credential_issuer_metadata.credential_configurations_supported.len(), 1);
        }
        other => panic!("unexpected {other:?}"),
    }
    assert_eq!(
        ServerConfigCommand::UpdateIssuerUrl { url: String::new() }.operation_name(),
        "issuance.configurations.issuer_url.update"
    );
}

#[test]
fn startup_issuer_metadata_updates() {
    let c = initialized();
    let same = issuer_metadata_updates(&c, "https://new.example.org/".to_string(), None);
    assert_eq!(same.len(), 1);
    assert_eq!(same[0], ServerConfigCommand::UpdateIssuerUrl { url: "https://new.example.org/".to_string() });
    let display = || vec![Json::Object(vec![("name".to_string(), Json::Str("Issuer".to_string()))])];
    let changed = issuer_metadata_updates(&c, issuer_url(), Some(display()));
    assert_eq!(changed.len(), 2);
    assert_eq!(changed[1], ServerConfigCommand::UpdateIssuerDisplay { display: Some(display()) });
}

#[test]
fn startup_binding_methods_are_sorted_and_only_sent_on_change() {
    let c = initialized();
    assert_eq!(binding_methods_update(&c, vec!["did:key".to_string(), "did:jwk".to_string()]), None);
    assert_eq!(
        binding_methods_update(&c, vec!["did:web".to_string(), "did:iota".to_string()]),
        Some(ServerConfigCommand::UpdateCryptographicBindingMethods {
            cryptographic_binding_methods_supported: vec!["did:iota".to_string(), "did:web".to_string()],
        })
    );
}

#[test]
fn startup_signing_algorithms_only_sent_on_change() {
    let c = initialized();
    assert_eq!(signing_algorithms_update(&c, vec![SigningAlgorithm::ES256, SigningAlgorithm::EdDSA]), None);
    assert_eq!(
        signing_algorithms_update(&c, vec![SigningAlgorithm::EdDSA]),
        Some(ServerConfigCommand::UpdateSigningAlgorithms { signing_algorithms_supported: vec![SigningAlgorithm::EdDSA] })
    );
}

#[test]
fn startup_endpoints_are_appended_to_the_public_url() {
    let e = server_endpoints("https://my-domain.example.org/");
    assert_eq!(e.credential, "https://my-domain.example.org/openid4vci/credential");
    assert_eq!(e.pushed_authorization_request, "https://my-domain.example.org/auth/par");
    let e = server_endpoints("https://my-domain.example.org");
    assert_eq!(e.token, "https://my-domain.example.org/auth/token");
    assert_eq!(e.nonce, "https://my-domain.example.org/openid4vci/nonce");
    assert_eq!(e.authorization, "https://my-domain.example.org/auth/authorize");
}

fn member<'a>(j: &'a Json, key: &str) -> Option<&'a Json> {
    match j {
        Json::Object(ms) => ms.iter().find(|m| m.0 == key).map(|m| &m.1),
        _ => None,
    }
}

#[test]
fn startup_initialization_without_interactive_flow_requires_pushed_requests() {
    let command = initialization_command(
        issuer_url(),
        None,
        vec!["did:key".to_string(), "did:jwk".to_string()],
        vec![SigningAlgorithm::EdDSA],
        false,
    );
    match &command {
        ServerConfigCommand::InitializeServerMetadata {
            authorization_server_metadata,
            credential_issuer_metadata,
            cryptographic_binding_methods_supported,
            signing_algorithms_supported,
        } => {
            assert_eq!(authorization_server_metadata.issuer, issuer_url());
            let other = &authorization_server_metadata.other;
            assert_eq!(member(other, "token_endpoint"), Some(&Json::Str("https://my-domain.example.org/auth/token".to_string())));
            assert_eq!(member(other, "require_pushed_authorization_requests"), Some(&Json::Bool(true)));
            assert_eq!(member(other, "interactive_authorization_endpoint"), None);
            assert_eq!(credential_issuer_metadata.credential_issuer, issuer_url());
            assert_eq!(
                member(&credential_issuer_metadata.other, "nonce_endpoint"),
                Some(&Json::Str("https://my-domain.example.org/openid4vci/nonce".to_string()))
            );
            assert_eq!(cryptographic_binding_methods_supported, &vec!["did:jwk".to_string(), "did:key".to_string()]);
            assert_eq!(signing_algorithms_supported, &vec![SigningAlgorithm::EdDSA]);
        }
        other => panic!("unexpected {other:?}"),
    }
    let mut c = ServerConfig::default();
    for e in c.handle(command).unwrap() {
        c.apply(e);
    }
    assert_eq!(c.authorization_server_metadata.issuer, issuer_url());
}

#[test]
fn startup_initialization_with_interactive_flow_names_the_interactive_endpoint() {
    let command = initialization_command(issuer_url(), None, vec![], vec![], true);
    match &command {
        ServerConfigCommand::InitializeServerMetadata { authorization_server_metadata, .. } => {
            let other = &authorization_server_metadata.other;
            assert_eq!(
                member(other, "interactive_authorization_endpoint"),
                Some(&Json::Str("https://my-domain.example.org/auth/par".to_string()))
            );
            assert_eq!(member(other, "require_interactive_authorization_request"), Some(&Json::Bool(true)));
            assert_eq!(member(other, "require_pushed_authorization_requests"), None);
        }
        other => panic!("unexpected {other:?}"),
    }
}

#[test]
fn issuer_metadata_lists_each_configuration_id_once() {
    let mut c = initialized();
    register(&mut c, "a", "001");
    register(&mut c, "b", "001");
    register(&mut c, "c", "002");
    assert_eq!(c.credential_configurations.len(), 3);
    let listed = &c.credential_issuer_metadata.credential_configurations_supported;
    let ids: Vec<&str> = listed.iter().map(|p| p.0.as_str()).collect();
    assert_eq!(ids, vec!["001", "002"]);
}
